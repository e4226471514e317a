pub mod line;
pub mod parser;
pub mod render;

use vstd::prelude::*;
use vstd::pervasive::VecAdditionalExecFns;
use vstd::string::StrSliceExecFns;
use crate::puzzle::line::{Cell, Direction, Line, State, cell_after, lemma_no_full_no_runs};

verus! {

/// A move was aimed at a coordinate outside the grid; nothing was changed.
#[derive(Clone, Copy, Debug, PartialEq, Eq, Structural)]
pub struct BoundsError;

/// One of the three things a player can do to a cell.
#[derive(Clone, Copy, Debug, PartialEq, Eq, Structural)]
pub enum Play {
    Mark,
    Block,
    Wipe,
}

/// The state a play of the given kind leaves in the cell it is applied to.
pub open spec fn play_state(play: Play) -> State {
    match play {
        Play::Mark => State::Full,
        Play::Block => State::Blocked,
        Play::Wipe => State::Empty,
    }
}

/// The play named by a one-letter command word, if any.
pub open spec fn play_of(s: Seq<char>) -> Option<Play> {
    if s.len() == 1 {
        if s[0] == 'm' || s[0] == 'M' {
            Some(Play::Mark)
        } else if s[0] == 'b' || s[0] == 'B' {
            Some(Play::Block)
        } else if s[0] == 'w' || s[0] == 'W' {
            Some(Play::Wipe)
        } else {
            None
        }
    } else {
        None
    }
}

impl Play {
    /// Decode a move verb: m, b or w, in either case. Anything else is no
    /// play at all.
    pub fn build(play: &str) -> (r: Option<Play>)
        ensures
            r == play_of(play@),
    {
        if play.unicode_len() != 1 {
            return None;
        }
        let c = play.get_char(0);
        match c {
            'm' | 'M' => Some(Play::Mark),
            'b' | 'B' => Some(Play::Block),
            'w' | 'W' => Some(Play::Wipe),
            _ => None,
        }
    }
}

/// The whole puzzle: the grid's cells in one shared store, read row by row,
/// and the row and column lines that view them.
///
/// The store is laid out row-major: the cell at column `x` of row `y` sits at
/// position `y * width + x`. Each row line and each column line names its
/// cells by store position, so the two views of one coordinate resolve to the
/// identical cell — mutating through either view is seen through the other.
#[derive(Debug)]
pub struct Puzzle {
    pub dimensions: (usize, usize),
    pub cells: Vec<Cell>,
    pub rows: Vec<Line>,
    pub columns: Vec<Line>,
}

/// A store position is inside a `height` by `width` grid laid out row-major.
pub(crate) proof fn lemma_grid_index(y: int, x: int, height: int, width: int)
    requires
        0 <= y < height,
        0 <= x < width,
    ensures
        0 <= y * width + x < height * width,
{
    assert(0 <= y * width + x < height * width) by (nonlinear_arith)
        requires
            0 <= y < height,
            0 <= x < width,
    ;
}

impl Puzzle {
    /// The number of rows.
    pub open spec fn height(self) -> int {
        self.dimensions.0 as int
    }

    /// The number of columns.
    pub open spec fn width(self) -> int {
        self.dimensions.1 as int
    }

    /// The store position of the cell at row `y`, column `x` (0-based).
    pub open spec fn pos(self, y: int, x: int) -> int {
        y * self.width() + x
    }

    /// The grid is rectangular and the two families of lines view it
    /// consistently: there is one row line per row and one column line per
    /// column, each of the grid's extent, and the cell `x` of row line `y`
    /// and the cell `y` of column line `x` both name store position
    /// `y * width + x` — the same shared cell.
    pub open spec fn wf(self) -> bool {
        &&& self.cells@.len() == self.height() * self.width()
        &&& self.rows@.len() == self.height()
        &&& self.columns@.len() == self.width()
        &&& forall|y: int| 0 <= y < self.height() ==> (#[trigger] self.rows@[y]).cells@.len()
            == self.width()
        &&& forall|y: int, x: int|
            0 <= y < self.height() && 0 <= x < self.width() ==> (#[trigger] self.rows@[y].cells@[x]) as int
                == self.pos(y, x)
        &&& forall|x: int| 0 <= x < self.width() ==> (#[trigger] self.columns@[x]).cells@.len()
            == self.height()
        &&& forall|x: int, y: int|
            0 <= x < self.width() && 0 <= y < self.height() ==> (#[trigger] self.columns@[x].cells@[y]) as int
                == self.pos(y, x)
        &&& forall|y: int| 0 <= y < self.height() ==> (#[trigger] self.rows@[y]).direction is Row
        &&& forall|x: int| 0 <= x < self.width() ==> (#[trigger] self.columns@[x]).direction
            is Column
    }

    /// The state of the cell at row `y`, column `x`, read from the store.
    pub open spec fn cell_state(self, y: int, x: int) -> State {
        self.cells@[self.pos(y, x)].state
    }

    /// Every cell of the grid is still empty.
    pub open spec fn all_empty(self) -> bool {
        forall|i: int| 0 <= i < self.cells@.len() ==> (#[trigger] self.cells@[i]).state
            == State::Empty
    }

    /// The win condition: every row line and every column line satisfies its
    /// hint against the current cells.
    pub open spec fn won(self) -> bool {
        &&& forall|y: int| 0 <= y < self.rows@.len() ==> (#[trigger] self.rows@[y]).satisfied(
            self.cells@,
        )
        &&& forall|x: int| 0 <= x < self.columns@.len() ==> (#[trigger] self.columns@[x]).satisfied(
            self.cells@,
        )
    }

    /// Build a puzzle from the text of its definition. Any puzzle handed
    /// back is well-formed with every cell empty; a failure describes what
    /// was wrong with the definition.
    pub fn build(definition: &str) -> (r: Result<Puzzle, crate::puzzle::parser::InputError>)
        ensures
            r matches Ok(p) ==> p.wf() && p.all_empty(),
    {
        crate::puzzle::parser::PuzzleParser::parse_yaml(definition)
    }

    /// Wire a puzzle up from its hint lists alone: one row per row hint, one
    /// column per column hint, every cell empty, and both families of lines
    /// viewing the one shared store at matching positions.
    pub fn from_hints(row_hints: &Vec<Vec<usize>>, column_hints: &Vec<Vec<usize>>) -> (p: Puzzle)
        requires
            row_hints@.len() * column_hints@.len() <= usize::MAX,
        ensures
            p.wf(),
            p.all_empty(),
            p.dimensions.0 == row_hints@.len(),
            p.dimensions.1 == column_hints@.len(),
            forall|y: int| 0 <= y < row_hints@.len() ==> (#[trigger] p.rows@[y]).hint.numbers@
                == row_hints@[y]@,
            forall|x: int| 0 <= x < column_hints@.len() ==> (#[trigger] p.columns@[x]).hint.numbers@
                == column_hints@[x]@,
    {
        let height = row_hints.len();
        let width = column_hints.len();
        let total = height * width;

        let mut cells: Vec<Cell> = Vec::new();
        let mut i: usize = 0;
        while i < total
            invariant
                i <= total,
                cells@.len() == i,
                forall|j: int| 0 <= j < i ==> (#[trigger] cells@[j]).state == State::Empty,
            decreases total - i,
        {
            cells.push(Cell::new());
            i = i + 1;
        }

        let mut rows: Vec<Line> = Vec::new();
        let mut y: usize = 0;
        while y < height
            invariant
                y <= height,
                height == row_hints@.len(),
                width == column_hints@.len(),
                height * width <= usize::MAX,
                rows@.len() == y,
                forall|j: int| 0 <= j < y ==> (#[trigger] rows@[j]).cells@.len() == width,
                forall|j: int, x: int|
                    0 <= j < y && 0 <= x < width ==> (#[trigger] rows@[j].cells@[x]) as int
                        == j * width + x,
                forall|j: int| 0 <= j < y ==> (#[trigger] rows@[j]).hint.numbers@
                    == row_hints@[j]@,
                forall|j: int| 0 <= j < y ==> (#[trigger] rows@[j]).direction is Row,
            decreases height - y,
        {
            let mut positions: Vec<usize> = Vec::new();
            let mut x: usize = 0;
            while x < width
                invariant
                    x <= width,
                    y < height,
                    height * width <= usize::MAX,
                    positions@.len() == x,
                    forall|k: int| 0 <= k < x ==> (#[trigger] positions@[k]) as int
                        == y * width + k,
                decreases width - x,
            {
                proof {
                    lemma_grid_index(y as int, x as int, height as int, width as int);
                }
                positions.push(y * width + x);
                x = x + 1;
            }
            rows.push(Line::new(positions, copy_hint(&row_hints[y]), Direction::Row));
            y = y + 1;
        }

        let mut columns: Vec<Line> = Vec::new();
        let mut x: usize = 0;
        while x < width
            invariant
                x <= width,
                height == row_hints@.len(),
                width == column_hints@.len(),
                height * width <= usize::MAX,
                columns@.len() == x,
                forall|j: int| 0 <= j < x ==> (#[trigger] columns@[j]).cells@.len() == height,
                forall|j: int, k: int|
                    0 <= j < x && 0 <= k < height ==> (#[trigger] columns@[j].cells@[k]) as int
                        == k * width + j,
                forall|j: int| 0 <= j < x ==> (#[trigger] columns@[j]).hint.numbers@
                    == column_hints@[j]@,
                forall|j: int| 0 <= j < x ==> (#[trigger] columns@[j]).direction is Column,
            decreases width - x,
        {
            let mut positions: Vec<usize> = Vec::new();
            let mut k: usize = 0;
            while k < height
                invariant
                    k <= height,
                    x < width,
                    height * width <= usize::MAX,
                    positions@.len() == k,
                    forall|j: int| 0 <= j < k ==> (#[trigger] positions@[j]) as int
                        == j * width + x,
                decreases height - k,
            {
                proof {
                    lemma_grid_index(k as int, x as int, height as int, width as int);
                }
                positions.push(k * width + x);
                k = k + 1;
            }
            columns.push(Line::new(positions, copy_hint(&column_hints[x]), Direction::Column));
            x = x + 1;
        }

        Puzzle { dimensions: (height, width), cells, rows, columns }
    }

    /// Apply one play at the 1-based coordinates `(x, y)`: column `x`, row
    /// `y`. In bounds, exactly the addressed cell changes, to the state the
    /// play dictates; out of bounds, nothing changes at all and the error
    /// says so.
    pub fn act_on_cell(&mut self, play: Play, x: usize, y: usize) -> (r: Result<(), BoundsError>)
        requires
            old(self).wf(),
        ensures
            final(self).wf(),
            final(self).dimensions == old(self).dimensions,
            final(self).rows == old(self).rows,
            final(self).columns == old(self).columns,
            if 1 <= y <= old(self).height() && 1 <= x <= old(self).width() {
                r is Ok && final(self).cells@ == old(self).cells@.update(
                    old(self).pos(y - 1, x - 1),
                    cell_after(old(self).cells@[old(self).pos(y - 1, x - 1)], play_state(play)),
                )
            } else {
                r is Err && *final(self) == *old(self)
            },
    {
        if x < 1 || y < 1 || y > self.dimensions.0 || x > self.dimensions.1 {
            return Err(BoundsError);
        }
        let store_len = self.cells.len();
        proof {
            lemma_grid_index(y - 1, x - 1, self.height(), self.width());
            assert(self.height() * self.width() == store_len);
        }
        let index = (y - 1) * self.dimensions.1 + (x - 1);
        let mut cell = self.cells[index];
        match play {
            Play::Mark => cell.mark(),
            Play::Block => cell.block(),
            Play::Wipe => cell.wipe(),
        }
        self.cells.set(index, cell);
        Ok(())
    }

    /// Decide the win condition: true exactly when every row and every
    /// column independently satisfies its hint. Recomputed from scratch on
    /// every call; no cached state exists to go stale.
    pub fn check(&self) -> (r: bool)
        requires
            self.wf(),
        ensures
            r == self.won(),
    {
        let mut y: usize = 0;
        while y < self.rows.len()
            invariant
                self.wf(),
                y <= self.rows@.len(),
                forall|j: int| 0 <= j < y ==> (#[trigger] self.rows@[j]).satisfied(self.cells@),
            decreases self.rows@.len() - y,
        {
            proof {
                assert forall|i: int| 0 <= i < self.rows@[y as int].cells@.len() implies (
                self.rows@[y as int].cells@[i] as nat) < self.cells@.len() as nat by {
                    lemma_grid_index(y as int, i, self.height(), self.width());
                }
            }
            if !self.rows[y].check(&self.cells) {
                return false;
            }
            y = y + 1;
        }
        let mut x: usize = 0;
        while x < self.columns.len()
            invariant
                self.wf(),
                x <= self.columns@.len(),
                forall|j: int| 0 <= j < self.rows@.len() ==> (#[trigger] self.rows@[j]).satisfied(
                    self.cells@,
                ),
                forall|j: int| 0 <= j < x ==> (#[trigger] self.columns@[j]).satisfied(self.cells@),
            decreases self.columns@.len() - x,
        {
            proof {
                assert forall|i: int| 0 <= i < self.columns@[x as int].cells@.len() implies (
                self.columns@[x as int].cells@[i] as nat) < self.cells@.len() as nat by {
                    lemma_grid_index(i, x as int, self.height(), self.width());
                }
            }
            if !self.columns[x].check(&self.cells) {
                return false;
            }
            x = x + 1;
        }
        true
    }
}

/// An owned copy of one hint list.
fn copy_hint(src: &Vec<usize>) -> (r: Vec<usize>)
    ensures
        r@ == src@,
{
    let mut r: Vec<usize> = Vec::new();
    let mut i: usize = 0;
    while i < src.len()
        invariant
            i <= src@.len(),
            r@ == src@.take(i as int),
        decreases src@.len() - i,
    {
        let ghost pre = r@;
        r.push(src[i]);
        proof {
            assert(pre.push(src@[i as int]) =~= src@.take(i + 1));
        }
        i = i + 1;
    }
    proof {
        assert(src@.take(src@.len() as int) =~= src@);
    }
    r
}

/// The aliasing invariant: for any coordinate of a well-formed puzzle, the
/// row view and the column view name the identical store position, so a
/// mutation made through one view is observed through the other, never stale.
pub proof fn lemma_row_column_alias(p: Puzzle, y: int, x: int)
    requires
        p.wf(),
        0 <= y < p.height(),
        0 <= x < p.width(),
    ensures
        p.rows@[y].cells@[x] == p.columns@[x].cells@[y],
        p.rows@[y].states(p.cells@)[x] == p.columns@[x].states(p.cells@)[y],
        p.rows@[y].states(p.cells@)[x] == p.cell_state(y, x),
{
}

/// Mutation through either view is never stale: setting the cell at row
/// `y`, column `x` through the row line's position and through the column
/// line's position writes the one shared store slot, and afterwards both
/// views read the state just written.
pub proof fn lemma_mutation_never_stale(p: Puzzle, y: int, x: int, s: State)
    requires
        p.wf(),
        0 <= y < p.height(),
        0 <= x < p.width(),
    ensures
        ({
            let row_pos = p.rows@[y].cells@[x] as int;
            let column_pos = p.columns@[x].cells@[y] as int;
            let written = p.cells@.update(row_pos, cell_after(p.cells@[row_pos], s));
            &&& row_pos == column_pos
            &&& p.rows@[y].states(written)[x] == s
            &&& p.columns@[x].states(written)[y] == s
        }),
{
    lemma_grid_index(y, x, p.height(), p.width());
}

/// A freshly built puzzle, all of whose cells are still empty, already
/// satisfies the win condition exactly when every hint list — row and column
/// alike — is empty.
pub proof fn lemma_fresh_check(p: Puzzle)
    requires
        p.wf(),
        p.all_empty(),
    ensures
        p.won() <==> {
            &&& forall|y: int| 0 <= y < p.rows@.len() ==> (#[trigger] p.rows@[y]).hint.numbers@.len()
                == 0
            &&& forall|x: int| 0 <= x < p.columns@.len()
                ==> (#[trigger] p.columns@[x]).hint.numbers@.len() == 0
        },
{
    assert forall|y: int| 0 <= y < p.rows@.len() implies (#[trigger] p.rows@[y]).satisfied(p.cells@)
        <==> p.rows@[y].hint.numbers@.len() == 0 by {
        lemma_all_empty_line(p, p.rows@[y], y, true);
    }
    assert forall|x: int| 0 <= x < p.columns@.len() implies (#[trigger] p.columns@[x]).satisfied(
        p.cells@,
    ) <==> p.columns@[x].hint.numbers@.len() == 0 by {
        lemma_all_empty_line(p, p.columns@[x], x, false);
    }
}

/// In an all-empty puzzle, any one line satisfies its hint exactly when that
/// hint is empty.
proof fn lemma_all_empty_line(p: Puzzle, line: Line, at: int, row: bool)
    requires
        p.wf(),
        p.all_empty(),
        row ==> 0 <= at < p.rows@.len() && line == p.rows@[at],
        !row ==> 0 <= at < p.columns@.len() && line == p.columns@[at],
    ensures
        line.satisfied(p.cells@) <==> line.hint.numbers@.len() == 0,
{
    assert forall|i: int| 0 <= i < line.states(p.cells@).len() implies line.states(p.cells@)[i]
        != State::Full by {
        if row {
            lemma_grid_index(at, i, p.height(), p.width());
        } else {
            lemma_grid_index(i, at, p.height(), p.width());
        }
        assert(line.states(p.cells@)[i] == p.cells@[line.cells@[i] as int].state);
    }
    lemma_no_full_no_runs(line.states(p.cells@));
    if line.hint.numbers@.len() == 0 {
        assert(line::hint_ints(line.hint.numbers@) =~= Seq::<int>::empty());
    } else {
        assert(line::hint_ints(line.hint.numbers@).len() == line.hint.numbers@.len());
    }
}

} // verus!
