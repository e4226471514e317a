use vstd::prelude::*;
use vstd::string::StringExecFns;
use crate::puzzle::line::{Cell, Direction, Hint, Line, State};
use crate::puzzle::{Puzzle, lemma_grid_index};

verus! {

/// The character for one decimal digit.
pub open spec fn digit_char(d: int) -> char {
    if d == 0 {
        '0'
    } else if d == 1 {
        '1'
    } else if d == 2 {
        '2'
    } else if d == 3 {
        '3'
    } else if d == 4 {
        '4'
    } else if d == 5 {
        '5'
    } else if d == 6 {
        '6'
    } else if d == 7 {
        '7'
    } else if d == 8 {
        '8'
    } else {
        '9'
    }
}

/// The decimal digits of a non-negative number, most significant first.
pub open spec fn dec_digits(n: int) -> Seq<char>
    recommends
        n >= 0,
    decreases n,
{
    if n < 10 {
        seq![digit_char(n)]
    } else {
        dec_digits(n / 10).push(digit_char(n % 10))
    }
}

/// `n` spaces.
pub open spec fn spaces(n: int) -> Seq<char>
    decreases n,
{
    if n <= 0 {
        Seq::<char>::empty()
    } else {
        spaces(n - 1).push(' ')
    }
}

/// How one hint list reads: each number in order, each followed by one space.
pub open spec fn hint_text(h: Seq<usize>) -> Seq<char>
    decreases h.len(),
{
    if h.len() == 0 {
        Seq::<char>::empty()
    } else {
        hint_text(h.drop_last()) + dec_digits(h.last() as int).push(' ')
    }
}

/// The glyph a cell state renders as.
pub open spec fn glyph(s: State) -> char {
    match s {
        State::Full => '■',
        State::Blocked => '⊠',
        State::Empty => '□',
    }
}

/// How a line's cells read: each state's glyph in order, each followed by
/// one space.
pub open spec fn cells_text(states: Seq<State>) -> Seq<char>
    decreases states.len(),
{
    if states.len() == 0 {
        Seq::<char>::empty()
    } else {
        cells_text(states.drop_last()).push(glyph(states.last())).push(' ')
    }
}

/// How a whole line reads: a row shows its cells, a column shows nothing
/// here, since its cells appear inside the rows.
pub open spec fn line_text(line: Line, store: Seq<Cell>) -> Seq<char> {
    match line.direction {
        Direction::Row => cells_text(line.states(store)),
        Direction::Column => Seq::<char>::empty(),
    }
}

/// Append one decimal digit.
fn push_digit(out: &mut String, d: usize)
    requires
        d < 10,
    ensures
        final(out)@ == old(out)@ + seq![digit_char(d as int)],
{
    match d {
        0 => {
            proof {
                reveal_strlit("0");
            }
            out.append("0");
        },
        1 => {
            proof {
                reveal_strlit("1");
            }
            out.append("1");
        },
        2 => {
            proof {
                reveal_strlit("2");
            }
            out.append("2");
        },
        3 => {
            proof {
                reveal_strlit("3");
            }
            out.append("3");
        },
        4 => {
            proof {
                reveal_strlit("4");
            }
            out.append("4");
        },
        5 => {
            proof {
                reveal_strlit("5");
            }
            out.append("5");
        },
        6 => {
            proof {
                reveal_strlit("6");
            }
            out.append("6");
        },
        7 => {
            proof {
                reveal_strlit("7");
            }
            out.append("7");
        },
        8 => {
            proof {
                reveal_strlit("8");
            }
            out.append("8");
        },
        _ => {
            proof {
                reveal_strlit("9");
            }
            out.append("9");
        },
    }
    proof {
        assert(final(out)@ =~= old(out)@ + seq![digit_char(d as int)]);
    }
}

/// Append a number in decimal.
fn push_decimal(out: &mut String, n: usize)
    ensures
        final(out)@ == old(out)@ + dec_digits(n as int),
    decreases n,
{
    if n < 10 {
        push_digit(out, n);
    } else {
        push_decimal(out, n / 10);
        push_digit(out, n % 10);
        proof {
            assert(final(out)@ =~= old(out)@ + dec_digits(n as int));
        }
    }
}

/// Append `n` spaces.
fn push_spaces(out: &mut String, n: usize)
    ensures
        final(out)@ == old(out)@ + spaces(n as int),
{
    let ghost base = out@;
    let mut i: usize = 0;
    while i < n
        invariant
            i <= n,
            out@ == base + spaces(i as int),
        decreases n - i,
    {
        proof {
            reveal_strlit(" ");
        }
        out.append(" ");
        i = i + 1;
        proof {
            assert(out@ =~= base + spaces(i as int));
        }
    }
}

impl Hint {
    /// The hint as text: every number in order, each followed by one space.
    pub fn render(&self) -> (r: String)
        ensures
            r@ == hint_text(self.numbers@),
    {
        let mut out = String::new();
        let mut i: usize = 0;
        while i < self.numbers.len()
            invariant
                i <= self.numbers@.len(),
                out@ == hint_text(self.numbers@.take(i as int)),
            decreases self.numbers@.len() - i,
        {
            push_decimal(&mut out, self.numbers[i]);
            proof {
                reveal_strlit(" ");
            }
            out.append(" ");
            i = i + 1;
            proof {
                assert(self.numbers@.take(i as int).drop_last() =~= self.numbers@.take(
                    i as int - 1,
                ));
                assert(out@ =~= hint_text(self.numbers@.take(i as int)));
            }
        }
        proof {
            assert(self.numbers@.take(self.numbers@.len() as int) =~= self.numbers@);
        }
        out
    }
}

impl Line {
    /// The line as text: a row's cells as glyphs in index order, each
    /// followed by one space; a column renders as nothing here.
    pub fn render(&self, store: &Vec<Cell>) -> (r: String)
        requires
            self.in_bounds(store@.len() as nat),
        ensures
            r@ == line_text(*self, store@),
    {
        let mut out = String::new();
        match self.direction {
            Direction::Column => out,
            Direction::Row => {
                let ghost states = self.states(store@);
                let mut i: usize = 0;
                while i < self.cells.len()
                    invariant
                        i <= self.cells@.len(),
                        self.in_bounds(store@.len() as nat),
                        states == self.states(store@),
                        states.len() == self.cells@.len(),
                        out@ == cells_text(states.take(i as int)),
                    decreases self.cells@.len() - i,
                {
                    let idx = self.cells[i];
                    match store[idx].state {
                        State::Full => {
                            proof {
                                reveal_strlit("■ ");
                            }
                            out.append("■ ");
                        },
                        State::Blocked => {
                            proof {
                                reveal_strlit("⊠ ");
                            }
                            out.append("⊠ ");
                        },
                        State::Empty => {
                            proof {
                                reveal_strlit("□ ");
                            }
                            out.append("□ ");
                        },
                    }
                    i = i + 1;
                    proof {
                        assert(states.take(i as int).drop_last() =~= states.take(i as int - 1));
                        assert(states.take(i as int).last() == states[i as int - 1]);
                        assert(out@ =~= cells_text(states.take(i as int)));
                    }
                }
                proof {
                    assert(states.take(states.len() as int) =~= states);
                }
                out
            },
        }
    }
}

/// The on-screen width of one hint list when every number takes a single
/// column: one column per number plus the gaps between them.
pub open spec fn hint_cols(h: Seq<usize>) -> int {
    if h.len() == 0 {
        0
    } else {
        2 * h.len() - 1
    }
}

/// How one row of the grid reads: its hint right-aligned into `width`
/// columns when it fits, then its cells, then a line break.
pub open spec fn row_line_text(p: Puzzle, width: int, y: int) -> Seq<char> {
    let line = p.rows@[y];
    let h = line.hint.numbers@;
    if 2 * h.len() <= width {
        spaces(width - 2 * h.len()) + seq![' '] + hint_text(h) + cells_text(line.states(p.cells@))
            + seq!['\n']
    } else {
        hint_text(h) + cells_text(line.states(p.cells@)) + seq!['\n']
    }
}

/// The first `upto` rows of the grid, one under the other.
pub open spec fn rows_text(p: Puzzle, width: int, upto: int) -> Seq<char>
    decreases upto,
{
    if upto <= 0 {
        Seq::<char>::empty()
    } else {
        rows_text(p, width, upto - 1) + row_line_text(p, width, upto - 1)
    }
}

/// The widest row hint, measured as `hint_cols`, among the first `upto` rows.
pub open spec fn max_row_hint_cols(p: Puzzle, upto: int) -> int
    decreases upto,
{
    if upto <= 0 {
        0
    } else {
        let prior = max_row_hint_cols(p, upto - 1);
        let cur = hint_cols(p.rows@[upto - 1].hint.numbers@);
        if cur > prior {
            cur
        } else {
            prior
        }
    }
}

/// The longest column hint among the first `upto` columns.
pub open spec fn max_col_hint_len(p: Puzzle, upto: int) -> int
    decreases upto,
{
    if upto <= 0 {
        0
    } else {
        let prior = max_col_hint_len(p, upto - 1);
        let cur = p.columns@[upto - 1].hint.numbers@.len() as int;
        if cur > prior {
            cur
        } else {
            prior
        }
    }
}

/// What one column contributes to header line `i` of `height`: its hints
/// stacked bottom-aligned, so the hint appears once the line is deep enough,
/// and blank space above it.
pub open spec fn header_cell(h: Seq<usize>, i: int, height: int) -> Seq<char> {
    if i + h.len() >= height {
        dec_digits(h[i + h.len() - height] as int).push(' ')
    } else {
        seq![' ', ' ']
    }
}

/// The contributions of the first `upto` columns to header line `i`.
pub open spec fn header_cells(p: Puzzle, i: int, height: int, upto: int) -> Seq<char>
    decreases upto,
{
    if upto <= 0 {
        Seq::<char>::empty()
    } else {
        header_cells(p, i, height, upto - 1) + header_cell(
            p.columns@[upto - 1].hint.numbers@,
            i,
            height,
        )
    }
}

/// Header line `i`: blank space over the row hints, then every column's
/// contribution, then a line break.
pub open spec fn header_line(p: Puzzle, i: int, height: int, width: int) -> Seq<char> {
    spaces(width) + header_cells(p, i, height, p.columns@.len() as int) + seq!['\n']
}

/// The first `upto` header lines.
pub open spec fn header_text(p: Puzzle, height: int, width: int, upto: int) -> Seq<char>
    decreases upto,
{
    if upto <= 0 {
        Seq::<char>::empty()
    } else {
        header_text(p, height, width, upto - 1) + header_line(p, upto - 1, height, width)
    }
}

/// The whole rendered grid: the column hints stacked above the columns, then
/// every row with its hint.
pub open spec fn schema_text(p: Puzzle) -> Seq<char> {
    let height = max_col_hint_len(p, p.columns@.len() as int);
    let width = max_row_hint_cols(p, p.rows@.len() as int);
    header_text(p, height, width, height) + rows_text(p, width, p.rows@.len() as int)
}

impl Puzzle {
    /// Render every row: its hint right-aligned into `width` columns when it
    /// fits, then its cells, one row per line.
    pub fn display_rows(&self, width: usize) -> (r: String)
        requires
            self.wf(),
        ensures
            r@ == rows_text(*self, width as int, self.rows@.len() as int),
    {
        let mut out = String::new();
        let mut y: usize = 0;
        while y < self.rows.len()
            invariant
                self.wf(),
                y <= self.rows@.len(),
                out@ == rows_text(*self, width as int, y as int),
            decreases self.rows@.len() - y,
        {
            let ghost base = out@;
            let line = &self.rows[y];
            proof {
                assert forall|i: int| 0 <= i < line.cells@.len() implies (line.cells@[i] as nat)
                    < self.cells@.len() as nat by {
                    lemma_grid_index(y as int, i, self.height(), self.width());
                }
            }
            let hlen = line.hint.numbers.len();
            if hlen <= width / 2 {
                proof {
                    assert(2 * hlen <= width);
                }
                push_spaces(&mut out, width - 2 * hlen);
                proof {
                    reveal_strlit(" ");
                }
                out.append(" ");
            } else {
                proof {
                    assert(!(2 * hlen <= width));
                }
            }
            let hint_part = line.hint.render();
            out.append(hint_part.as_str());
            let cells_part = line.render(&self.cells);
            out.append(cells_part.as_str());
            proof {
                reveal_strlit("\n");
            }
            out.append("\n");
            y = y + 1;
            proof {
                assert(out@ =~= base + row_line_text(*self, width as int, y as int - 1));
            }
        }
        out
    }

    /// Render the whole grid: the column hints stacked bottom-aligned above
    /// the columns, then every row with its right-aligned hint.
    pub fn render(&self) -> (r: String)
        requires
            self.wf(),
            forall|y: int| 0 <= y < self.rows@.len() ==> (#[trigger] self.rows@[y]).hint.numbers@.len()
                <= usize::MAX / 2,
        ensures
            r@ == schema_text(*self),
    {
        let mut height: usize = 0;
        let mut x: usize = 0;
        while x < self.columns.len()
            invariant
                x <= self.columns@.len(),
                height as int == max_col_hint_len(*self, x as int),
            decreases self.columns@.len() - x,
        {
            let l = self.columns[x].hint.numbers.len();
            if l > height {
                height = l;
            }
            x = x + 1;
        }

        let mut width: usize = 0;
        let mut y: usize = 0;
        while y < self.rows.len()
            invariant
                y <= self.rows@.len(),
                forall|j: int| 0 <= j < self.rows@.len()
                    ==> (#[trigger] self.rows@[j]).hint.numbers@.len() <= usize::MAX / 2,
                width as int == max_row_hint_cols(*self, y as int),
            decreases self.rows@.len() - y,
        {
            let l = self.rows[y].hint.numbers.len();
            if l > 0 {
                let w = 2 * l - 1;
                if w > width {
                    width = w;
                }
            }
            y = y + 1;
        }

        let mut out = String::new();
        let mut i: usize = 0;
        while i < height
            invariant
                self.wf(),
                i <= height,
                height as int == max_col_hint_len(*self, self.columns@.len() as int),
                width as int == max_row_hint_cols(*self, self.rows@.len() as int),
                out@ == header_text(*self, height as int, width as int, i as int),
            decreases height - i,
        {
            let ghost base = out@;
            push_spaces(&mut out, width);
            let mut c: usize = 0;
            while c < self.columns.len()
                invariant
                    self.wf(),
                    i < height,
                    c <= self.columns@.len(),
                    out@ == base + spaces(width as int) + header_cells(
                        *self,
                        i as int,
                        height as int,
                        c as int,
                    ),
                decreases self.columns@.len() - c,
            {
                let ghost cell_base = out@;
                let l = self.columns[c].hint.numbers.len();
                if l >= height - i {
                    let index = l - (height - i);
                    push_decimal(&mut out, self.columns[c].hint.numbers[index]);
                    proof {
                        reveal_strlit(" ");
                    }
                    out.append(" ");
                } else {
                    proof {
                        reveal_strlit("  ");
                    }
                    out.append("  ");
                }
                c = c + 1;
                proof {
                    assert(out@ =~= cell_base + header_cell(
                        self.columns@[c as int - 1].hint.numbers@,
                        i as int,
                        height as int,
                    ));
                }
            }
            proof {
                reveal_strlit("\n");
            }
            out.append("\n");
            i = i + 1;
            proof {
                assert(out@ =~= base + header_line(
                    *self,
                    i as int - 1,
                    height as int,
                    width as int,
                ));
            }
        }

        let rows_part = self.display_rows(width);
        out.append(rows_part.as_str());
        proof {
            assert(out@ =~= schema_text(*self));
        }
        out
    }
}

} // verus!
