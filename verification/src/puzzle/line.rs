use vstd::prelude::*;

verus! {

/// The marking state of one grid cell.
#[derive(Clone, Copy, Debug, PartialEq, Eq, Structural)]
pub enum State {
    Full,
    Blocked,
    Empty,
}

/// One mutable cell of the grid; its only observable attribute is its state.
#[derive(Clone, Copy, Debug, PartialEq, Eq, Structural)]
pub struct Cell {
    pub state: State,
}

/// The cell left behind by setting the cell `c` to state `s`: the prior
/// contents `c` play no part, which is what makes every play unconditional.
pub open spec fn cell_after(c: Cell, s: State) -> Cell {
    Cell { state: s }
}

impl Cell {
    /// A fresh cell starts out empty.
    pub fn new() -> (c: Cell)
        ensures
            c == (Cell { state: State::Empty }),
    {
        Cell { state: State::Empty }
    }

    /// Set the cell to Full, whatever it held before.
    pub fn mark(&mut self)
        ensures
            *final(self) == cell_after(*old(self), State::Full),
    {
        self.state = State::Full;
    }

    /// Set the cell to Blocked, whatever it held before.
    pub fn block(&mut self)
        ensures
            *final(self) == cell_after(*old(self), State::Blocked),
    {
        self.state = State::Blocked;
    }

    /// Reset the cell to Empty, whatever it held before.
    pub fn wipe(&mut self)
        ensures
            *final(self) == cell_after(*old(self), State::Empty),
    {
        self.state = State::Empty;
    }

    /// Read the current state, for rendering and for the satisfaction check.
    pub fn state(&self) -> (s: State)
        ensures
            s == self.state,
    {
        self.state
    }
}

/// Marking a cell, blocking it, or wiping it fully determines the state it is
/// left in, so doing the same thing twice to a cell leaves exactly what doing
/// it once leaves: the three cell operations are idempotent.
pub proof fn lemma_play_idempotent(c: Cell, s: State)
    ensures
        cell_after(cell_after(c, s), s) == cell_after(c, s),
{
}

/// The required run lengths for one line, as mathematical integers.
pub open spec fn hint_ints(h: Seq<usize>) -> Seq<int> {
    h.map_values(|v: usize| v as int)
}

/// A left-to-right scan of the line's states: the pair holds the lengths of
/// the maximal runs of Full cells that some non-Full cell already terminated,
/// and the length of the still-open run of Full cells at the end of the scan.
pub open spec fn scan_runs(s: Seq<State>) -> (Seq<int>, int)
    decreases s.len(),
{
    if s.len() == 0 {
        (Seq::<int>::empty(), 0)
    } else {
        let prior = scan_runs(s.drop_last());
        if s.last() == State::Full {
            (prior.0, prior.1 + 1)
        } else if prior.1 > 0 {
            (prior.0.push(prior.1), 0)
        } else {
            prior
        }
    }
}

/// The run-length decomposition of a line: the lengths of its maximal runs of
/// Full cells, in order. A run still open at the end of the line counts like
/// any other; a line with no Full cell decomposes into the empty sequence.
pub open spec fn run_lengths(s: Seq<State>) -> Seq<int> {
    let scanned = scan_runs(s);
    if scanned.1 > 0 {
        scanned.0.push(scanned.1)
    } else {
        scanned.0
    }
}

/// A line satisfies a hint exactly when its run-length decomposition equals
/// the hint sequence element for element, in order: same length, same values.
pub open spec fn line_satisfied(s: Seq<State>, h: Seq<usize>) -> bool {
    run_lengths(s) == hint_ints(h)
}

/// Every entry of the decomposition is the length of a run, so it is at least
/// one: a hint holding a zero entry is satisfied by no line at all.
pub proof fn lemma_runs_positive(s: Seq<State>)
    ensures
        forall|i: int| 0 <= i < run_lengths(s).len() ==> run_lengths(s)[i] >= 1,
{
    lemma_scan_positive(s);
}

proof fn lemma_scan_positive(s: Seq<State>)
    ensures
        forall|i: int| 0 <= i < scan_runs(s).0.len() ==> scan_runs(s).0[i] >= 1,
        scan_runs(s).1 >= 0,
    decreases s.len(),
{
    if s.len() > 0 {
        lemma_scan_positive(s.drop_last());
    }
}

/// A hint holding a zero entry is satisfied by no line at all: every entry
/// of an actual decomposition is the length of a maximal run, at least one.
pub proof fn lemma_zero_hint_never_matches(s: Seq<State>, h: Seq<usize>)
    requires
        exists|i: int| 0 <= i < h.len() && h[i] == 0,
    ensures
        !line_satisfied(s, h),
{
    lemma_runs_positive(s);
    let i = choose|i: int| 0 <= i < h.len() && h[i] == 0;
    assert(hint_ints(h)[i] == 0);
    if line_satisfied(s, h) {
        assert(run_lengths(s)[i] >= 1);
    }
}

/// A line without a single Full cell decomposes into no runs at all, so it
/// satisfies exactly the empty hint.
pub proof fn lemma_no_full_no_runs(s: Seq<State>)
    requires
        forall|i: int| 0 <= i < s.len() ==> s[i] != State::Full,
    ensures
        run_lengths(s) == Seq::<int>::empty(),
    decreases s.len(),
{
    if s.len() > 0 {
        assert(forall|i: int| 0 <= i < s.drop_last().len() ==> s.drop_last()[i] != State::Full);
        lemma_no_full_no_runs(s.drop_last());
    }
}

/// Mapping a hint to its mathematical form loses nothing: two hints with the
/// same mathematical form hold the same numbers.
pub proof fn lemma_hint_ints_injective(a: Seq<usize>, b: Seq<usize>)
    requires
        hint_ints(a) == hint_ints(b),
    ensures
        a == b,
{
    assert(hint_ints(a).len() == a.len());
    assert(hint_ints(b).len() == b.len());
    assert forall|i: int| 0 <= i < a.len() implies a[i] == b[i] by {
        assert(hint_ints(a)[i] == a[i] as int);
        assert(hint_ints(b)[i] == b[i] as int);
    }
    assert(a =~= b);
}

proof fn lemma_hint_ints_push(q: Seq<usize>, v: usize)
    ensures
        hint_ints(q.push(v)) == hint_ints(q).push(v as int),
{
    assert(hint_ints(q.push(v)) =~= hint_ints(q).push(v as int));
}

/// The ordered sequence of required run lengths for one line. A hint may be
/// empty, meaning the line must contain no Full cells at all.
#[derive(Debug)]
pub struct Hint {
    pub numbers: Vec<usize>,
}

impl Hint {
    pub fn new(numbers: Vec<usize>) -> (h: Hint)
        ensures
            h.numbers == numbers,
    {
        Hint { numbers }
    }

    /// The raw hint sequence, exposed read-only for rendering.
    pub fn values(&self) -> (r: &Vec<usize>)
        ensures
            r == self.numbers,
    {
        &self.numbers
    }
}

/// Whether a line runs left to right or top to bottom. The tag only affects
/// how the line is rendered, never how it is validated.
#[derive(Clone, Copy, Debug)]
pub enum Direction {
    Row,
    Column,
}

/// A row or column: an ordered sequence of positions in the grid's shared
/// cell store, plus the hint the line must satisfy. Two lines that name the
/// same store position share that cell.
#[derive(Debug)]
pub struct Line {
    pub cells: Vec<usize>,
    pub hint: Hint,
    pub direction: Direction,
}

impl Line {
    /// Every position this line names lies inside a cell store of length `n`.
    pub open spec fn in_bounds(self, n: nat) -> bool {
        forall|i: int| 0 <= i < self.cells@.len() ==> (self.cells@[i] as nat) < n
    }

    /// The states of this line's cells, read in index order from the store.
    pub open spec fn states(self, store: Seq<Cell>) -> Seq<State> {
        self.cells@.map(|i: int, idx: usize| store[idx as int].state)
    }

    /// Whether this line currently satisfies its hint against the store.
    pub open spec fn satisfied(self, store: Seq<Cell>) -> bool {
        line_satisfied(self.states(store), self.hint.numbers@)
    }

    pub fn new(cells: Vec<usize>, hint: Vec<usize>, direction: Direction) -> (line: Line)
        ensures
            line.cells == cells,
            line.hint.numbers == hint,
            line.direction == direction,
    {
        let hint = Hint::new(hint);
        Line { cells, hint, direction }
    }

    /// The required run lengths for this line.
    pub fn hint(&self) -> (r: &Vec<usize>)
        ensures
            r == self.hint.numbers,
    {
        &self.hint.numbers
    }

    pub fn hint_obj(&self) -> (r: &Hint)
        ensures
            r == self.hint,
    {
        &self.hint
    }

    /// The store position of the `n`-th cell of this line. Out-of-range
    /// access is a programming error, ruled out up front.
    pub fn cell(&self, n: usize) -> (r: usize)
        requires
            n < self.cells@.len(),
        ensures
            r == self.cells@[n as int],
    {
        self.cells[n]
    }

    /// Decide whether the line's actual run-length decomposition equals its
    /// hint element for element; this single routine serves rows and columns
    /// alike, since the direction tag never enters the logic.
    pub fn check(&self, store: &Vec<Cell>) -> (r: bool)
        requires
            self.in_bounds(store@.len() as nat),
        ensures
            r == self.satisfied(store@),
    {
        let ghost s: Seq<State> = self.states(store@);
        let mut checks: Vec<usize> = Vec::new();
        let mut run: usize = 0;
        let mut i: usize = 0;
        while i < self.cells.len()
            invariant
                i <= self.cells@.len(),
                self.in_bounds(store@.len() as nat),
                s == self.states(store@),
                s.len() == self.cells@.len(),
                run <= i,
                (hint_ints(checks@), run as int) == scan_runs(s.take(i as int)),
            decreases self.cells@.len() - i,
    {
            let idx = self.cells[i];
            let st = store[idx].state;
            proof {
                assert(s.take(i + 1).drop_last() =~= s.take(i as int));
                assert(s.take(i + 1).last() == s[i as int]);
            }
            match st {
                State::Full => {
                    run = run + 1;
                }
                State::Blocked | State::Empty => {
                    if run > 0 {
                        let ghost pre = checks@;
                        checks.push(run);
                        proof {
                            lemma_hint_ints_push(pre, run);
                        }
                        run = 0;
                    }
                }
            }
            i = i + 1;
        }
        proof {
            assert(s.take(s.len() as int) =~= s);
        }
        if run > 0 {
            let ghost pre = checks@;
            checks.push(run);
            proof {
                lemma_hint_ints_push(pre, run);
            }
        }
        let r = hints_match(&checks, &self.hint.numbers);
        proof {
            if hint_ints(checks@) == hint_ints(self.hint.numbers@) {
                lemma_hint_ints_injective(checks@, self.hint.numbers@);
            }
        }
        r
    }
}

/// Element-for-element comparison of two hint sequences.
fn hints_match(a: &Vec<usize>, b: &Vec<usize>) -> (r: bool)
    ensures
        r == (a@ == b@),
{
    if a.len() != b.len() {
        assert(a@ != b@);
        return false;
    }
    let mut i: usize = 0;
    while i < a.len()
        invariant
            i <= a@.len(),
            a@.len() == b@.len(),
            forall|j: int| 0 <= j < i ==> a@[j] == b@[j],
        decreases a@.len() - i,
    {
        if a[i] != b[i] {
            assert(a@ != b@);
            return false;
        }
        i = i + 1;
    }
    proof {
        assert(a@ =~= b@);
    }
    true
}

} // verus!
