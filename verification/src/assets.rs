//! Text assets: a block of text turned into a rectangular grid of characters
//! that can be stamped onto the board.
use vstd::prelude::*;

verus! {

/// `s` with every tab replaced by four spaces.
pub open spec fn expand_tabs(s: Seq<char>) -> Seq<char>
    decreases s.len(),
{
    if s.len() == 0 {
        seq![]
    } else {
        expand_tabs(s.drop_last()) + if s.last() == '\t' {
            seq![' ', ' ', ' ', ' ']
        } else {
            seq![s.last()]
        }
    }
}

/// A line as ended by a line feed: a carriage return just before the line
/// feed belongs to the line ending, not to the line.
pub open spec fn strip_cr(line: Seq<char>) -> Seq<char> {
    if line.len() > 0 && line.last() == '\r' {
        line.drop_last()
    } else {
        line
    }
}

/// Reading `s` left to right: the lines already ended by a line feed, and
/// the line in progress.
pub open spec fn lines_acc(s: Seq<char>) -> (Seq<Seq<char>>, Seq<char>)
    decreases s.len(),
{
    if s.len() == 0 {
        (seq![], seq![])
    } else {
        let (done, cur) = lines_acc(s.drop_last());
        if s.last() == '\n' {
            (done.push(strip_cr(cur)), seq![])
        } else {
            (done, cur.push(s.last()))
        }
    }
}

/// The lines of `s`, split at `\n` or `\r\n`; a final line ending is optional.
pub open spec fn text_lines(s: Seq<char>) -> Seq<Seq<char>> {
    let (done, cur) = lines_acc(s);
    if cur.len() > 0 {
        done.push(cur)
    } else {
        done
    }
}

/// The rows of an asset read from `raw`, before padding: tabs expanded, split
/// into lines, and one trailing empty line dropped.
pub open spec fn asset_lines(raw: Seq<char>) -> Seq<Seq<char>> {
    let ls = text_lines(expand_tabs(raw));
    if ls.len() > 0 && ls.last().len() == 0 {
        ls.drop_last()
    } else {
        ls
    }
}

/// The length of the longest row (0 for no rows).
pub open spec fn max_len(rows: Seq<Seq<char>>) -> nat
    decreases rows.len(),
{
    if rows.len() == 0 {
        0
    } else {
        let m = max_len(rows.drop_last());
        if rows.last().len() > m {
            rows.last().len()
        } else {
            m
        }
    }
}

/// `row` right-padded with spaces to `width`.
pub open spec fn pad_to(row: Seq<char>, width: nat) -> Seq<char> {
    row + Seq::new((width - row.len()) as nat, |j: int| ' ')
}

/// The character rows of a vector of rows.
pub open spec fn rows_view(rows: Seq<Vec<char>>) -> Seq<Seq<char>> {
    rows.map_values(|r: Vec<char>| r@)
}

/// No row is longer than the longest row.
pub proof fn lemma_max_len(rows: Seq<Seq<char>>)
    ensures
        forall|i: int| 0 <= i < rows.len() ==> #[trigger] rows[i].len() <= max_len(rows),
    decreases rows.len(),
{
    if rows.len() > 0 {
        lemma_max_len(rows.drop_last());
        assert forall|i: int| 0 <= i < rows.len() implies #[trigger] rows[i].len() <= max_len(
            rows,
        ) by {
            if i < rows.len() - 1 {
                assert(rows.drop_last()[i] == rows[i]);
            }
        }
    }
}

/// A loaded text asset: a grid of characters plus its bounding size.
///
/// Rows are padded to equal width on load, so stamping never meets ragged
/// lines.
#[derive(Clone, Debug)]
pub struct Asset {
    /// Character grid, indexed `[row][col]`.
    pub rows: Vec<Vec<char>>,
    /// Width of the widest row (all rows padded to this).
    pub width: usize,
    /// Number of rows.
    pub height: usize,
}

impl Asset {
    /// A rectangular asset: `height` rows, each exactly `width` long.
    pub open spec fn wf(&self) -> bool {
        &&& self.rows@.len() == self.height
        &&& forall|i: int| 0 <= i < self.rows@.len() ==> #[trigger] self.rows@[i]@.len() == self.width
    }

    /// Build an asset from text: tabs are expanded to four spaces, the text is
    /// split into lines (a trailing empty line is dropped), and every row is
    /// right-padded with spaces to the length of the longest.
    pub fn from_str(raw: &str) -> (a: Asset)
        ensures
            a.wf(),
            a.height == asset_lines(raw@).len(),
            a.width == max_len(asset_lines(raw@)),
            rows_view(a.rows@) == asset_lines(raw@).map_values(
                |r: Seq<char>| pad_to(r, max_len(asset_lines(raw@))),
            ),
    {
        // Expand tabs.
        let mut expanded: Vec<char> = Vec::new();
        for c in it: raw.chars()
            invariant
                expanded@ == expand_tabs(it.seq().take(it.index() as int)),
        {
            let ghost prev = it.seq().take(it.index() as int);
            if c == '\t' {
                expanded.push(' ');
                expanded.push(' ');
                expanded.push(' ');
                expanded.push(' ');
            } else {
                expanded.push(c);
            }
            proof {
                let next = it.seq().take(it.index() + 1);
                assert(next.drop_last() =~= prev);
                assert(expanded@ =~= expand_tabs(next));
            }
        }
        assert(raw@.take(raw@.len() as int) =~= raw@);
        let ghost text = expanded@;
        assert(text == expand_tabs(raw@));

        // Split into lines.
        let mut rows: Vec<Vec<char>> = Vec::new();
        let mut cur: Vec<char> = Vec::new();
        let mut i: usize = 0;
        while i < expanded.len()
            invariant
                text == expanded@,
                i <= expanded.len(),
                (rows_view(rows@), cur@) == lines_acc(text.take(i as int)),
            decreases expanded.len() - i,
        {
            let c = expanded[i];
            proof {
                assert(text.take(i + 1).drop_last() =~= text.take(i as int));
            }
            if c == '\n' {
                if cur.len() > 0 && cur[cur.len() - 1] == '\r' {
                    cur.pop();
                }
                let line = cur;
                cur = Vec::new();
                rows.push(line);
                assert(rows_view(rows@) =~= lines_acc(text.take(i + 1)).0);
            } else {
                cur.push(c);
            }
            i += 1;
        }
        assert(text.take(i as int) =~= text);
        if cur.len() > 0 {
            rows.push(cur);
            assert(rows_view(rows@) =~= text_lines(text));
        }
        // Drop a trailing empty line.

        if rows.len() > 0 && rows[rows.len() - 1].len() == 0 {
            rows.pop();
            assert(rows_view(rows@) =~= asset_lines(raw@));
        }
        let ghost lines = rows_view(rows@);
        assert(lines == asset_lines(raw@));

        // The widest row.
        let mut width: usize = 0;
        let mut k: usize = 0;
        while k < rows.len()
            invariant
                lines == rows_view(rows@),
                k <= rows.len(),
                width == max_len(lines.take(k as int)),
            decreases rows.len() - k,
        {
            assert(lines.take(k + 1).drop_last() =~= lines.take(k as int));
            if rows[k].len() > width {
                width = rows[k].len();
            }
            k += 1;
        }
        assert(lines.take(k as int) =~= lines);
        proof {
            lemma_max_len(lines);
        }

        // Pad every row to the same width.
        let mut padded: Vec<Vec<char>> = Vec::new();
        let mut r: usize = 0;
        while r < rows.len()
            invariant
                lines == rows_view(rows@),
                width == max_len(lines),
                forall|j: int| 0 <= j < lines.len() ==> #[trigger] lines[j].len() <= width,
                r <= rows.len(),
                rows_view(padded@) == lines.take(r as int).map_values(
                    |l: Seq<char>| pad_to(l, width as nat),
                ),
                forall|j: int| 0 <= j < padded@.len() ==> #[trigger] padded@[j]@.len() == width,
            decreases rows.len() - r,
        {
            let row = &rows[r];
            let ghost line = lines[r as int];
            assert(line == row@);
            let mut out: Vec<char> = Vec::new();
            let mut j: usize = 0;
            while j < row.len()
                invariant
                    j <= row.len(),
                    out@ == row@.take(j as int),
                decreases row.len() - j,
            {
                out.push(row[j]);
                j += 1;
            }
            while out.len() < width
                invariant
                    row@.len() <= out@.len() <= width,
                    out@ == pad_to(row@, width as nat).take(out@.len() as int),
                decreases width - out.len(),
            {
                out.push(' ');
            }
            assert(out@ =~= pad_to(line, width as nat));
            let ghost prev = rows_view(padded@);
            let ghost out_view = out@;
            padded.push(out);
            assert(rows_view(padded@) =~= prev.push(out_view));
            assert(lines.take(r + 1) =~= lines.take(r as int).push(line));
            assert(rows_view(padded@) =~= lines.take(r + 1).map_values(
                |l: Seq<char>| pad_to(l, width as nat),
            ));
            r += 1;
        }
        assert(lines.take(r as int) =~= lines);
        let height = padded.len();
        Asset { rows: padded, width, height }
    }
}

} // verus!
