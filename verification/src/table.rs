//! The strategy tables: three grids of action codes, and their parsed form.

use crate::card::Card;
use vstd::prelude::*;

verus! {

/// What a hand does next.
#[derive(Clone, Copy, Debug, PartialEq, Eq, Structural)]
pub enum Action {
    /// Take no more cards.
    Stand,
    /// Take one card and decide again.
    Hit,
    /// Stake the bet once more, take one card and stop.
    Double,
    /// Part a pair into two hands.
    Split,
    /// The hand is over 21 and stops.
    Bust,
}

/// Why a simulation stopped without a result.
#[derive(Clone, Copy, Debug, PartialEq, Eq, Structural)]
pub enum SimError {
    /// A table is not 10 by 10.
    TableShape,
    /// A table holds a code that is not one of its own.
    TableCode,
    /// The population is too large to hold and to sample.
    TooManyDecks,
    /// The operating system gave no randomness to shuffle with.
    NoEntropy,
    /// A card was needed and the shoe was empty.
    ShoeExhausted,
    /// A soft total has no row in the soft table.
    NoTableRow,
    /// A payout would take the balance over `usize::MAX`.
    BankrollOverflow,
}

impl SimError {
    /// The error in words.
    pub open spec fn text(self) -> Seq<char> {
        match self {
            SimError::TableShape => "a strategy table is not 10 by 10"@,
            SimError::TableCode => "a strategy table holds an unknown code"@,
            SimError::TooManyDecks => "too many decks"@,
            SimError::NoEntropy => "no randomness to shuffle with"@,
            SimError::ShoeExhausted => "shoe exhausted"@,
            SimError::NoTableRow => "a soft total has no row in the soft table"@,
            SimError::BankrollOverflow => "the balance does not fit"@,
        }
    }

    /// The error in words.
    pub fn message(self) -> (words: &'static str)
        ensures
            words@ == self.text(),
    {
        match self {
            SimError::TableShape => "a strategy table is not 10 by 10",
            SimError::TableCode => "a strategy table holds an unknown code",
            SimError::TooManyDecks => "too many decks",
            SimError::NoEntropy => "no randomness to shuffle with",
            SimError::ShoeExhausted => "shoe exhausted",
            SimError::NoTableRow => "a soft total has no row in the soft table",
            SimError::BankrollOverflow => "the balance does not fit",
        }
    }
}

/// Rows and columns of every strategy table.
pub const SIDE: usize = 10;

/// A rectangular table of action codes, kept in an `ndarray` array.
#[verifier::external_body]
pub struct Grid {
    cells: ndarray::Array2<&'static str>,
}

/// The codes that a table holds, row by row.
pub uninterp spec fn grid_of(table: &Grid) -> Seq<Seq<Seq<char>>>;

/// `Array2::from_shape_vec` with the shape `(rows, columns)`: the array
/// that holds `codes` row by row. It fails only where the shape and the
/// number of codes differ or the shape overflows, which the conditions
/// rule out.
#[verifier::external_body]
fn grid_from_shape_vec(rows: usize, columns: usize, codes: Vec<&'static str>) -> (made: Option<
    Grid,
>)
    requires
        rows > 0,
        columns > 0,
        rows * columns == codes@.len(),
    ensures
        made is Some,
        made matches Some(table) ==> grid_of(&table) == rows_of(
            codes@,
            rows as nat,
            columns as nat,
        ),
{
    ndarray::Array2::from_shape_vec((rows, columns), codes).ok().map(|cells| Grid { cells })
}

/// `ArrayBase::dim` on a two-dimensional array: the number of rows and the
/// number of columns, which every row has.
#[verifier::external_body]
fn grid_shape(table: &Grid) -> (shape: (usize, usize))
    ensures
        grid_of(table).len() == shape.0,
        forall|i: int| 0 <= i < shape.0 ==> (#[trigger] grid_of(table)[i]).len() == shape.1,
{
    table.cells.dim()
}

/// Indexing a two-dimensional array by `[row, column]`, which panics out of
/// bounds: the code in that cell.
#[verifier::external_body]
fn grid_cell(table: &Grid, row: usize, column: usize) -> (code: &'static str)
    requires
        row < grid_of(table).len(),
        column < grid_of(table)[row as int].len(),
    ensures
        code@ == grid_of(table)[row as int][column as int],
{
    table.cells[[row, column]]
}

/// `codes` cut into `rows` rows of `columns` codes each.
pub open spec fn rows_of(codes: Seq<&'static str>, rows: nat, columns: nat) -> Seq<Seq<Seq<char>>> {
    Seq::new(rows, |i: int| Seq::new(columns, |j: int| codes[i * columns + j]@))
}

/// Every row of `grid` has `SIDE` codes, and there are `SIDE` rows.
pub open spec fn is_square(grid: Seq<Seq<Seq<char>>>) -> bool {
    &&& grid.len() == SIDE
    &&& forall|i: int| 0 <= i < SIDE ==> (#[trigger] grid[i]).len() == SIDE
}

/// The action that a code of the hard and soft tables stands for.
pub open spec fn action_of(code: Seq<char>) -> Option<Action> {
    if code == seq!['s'] {
        Some(Action::Stand)
    } else if code == seq!['h'] {
        Some(Action::Hit)
    } else if code == seq!['d'] {
        Some(Action::Double)
    } else {
        None
    }
}

/// The answer that a code of the split table stands for.
pub open spec fn answer_of(code: Seq<char>) -> Option<bool> {
    if code == seq!['y'] {
        Some(true)
    } else if code == seq!['n'] {
        Some(false)
    } else {
        None
    }
}

/// Every cell of a square grid is a code of the hard and soft tables.
pub open spec fn holds_actions(grid: Seq<Seq<Seq<char>>>) -> bool {
    forall|i: int, j: int|
        0 <= i < SIDE && 0 <= j < SIDE ==> action_of(#[trigger] grid[i][j]) is Some
}

/// Every cell of a square grid is a code of the split table.
pub open spec fn holds_answers(grid: Seq<Seq<Seq<char>>>) -> bool {
    forall|i: int, j: int|
        0 <= i < SIDE && 0 <= j < SIDE ==> answer_of(#[trigger] grid[i][j]) is Some
}

/// Reads a code of the hard and soft tables.
pub fn parse_action(code: &str) -> (action: Option<Action>)
    ensures
        action == action_of(code@),
{
    if code.unicode_len() != 1 {
        return None;
    }
    let c = code.get_char(0);
    assert(code@ =~= seq![c]);
    assert(seq!['s'][0] == 's' && seq!['h'][0] == 'h' && seq!['d'][0] == 'd');
    if c == 's' {
        Some(Action::Stand)
    } else if c == 'h' {
        Some(Action::Hit)
    } else if c == 'd' {
        Some(Action::Double)
    } else {
        None
    }
}

/// Reads a code of the split table.
pub fn parse_answer(code: &str) -> (answer: Option<bool>)
    ensures
        answer == answer_of(code@),
{
    if code.unicode_len() != 1 {
        return None;
    }
    let c = code.get_char(0);
    assert(code@ =~= seq![c]);
    assert(seq!['y'][0] == 'y' && seq!['n'][0] == 'n');
    if c == 'y' {
        Some(true)
    } else if c == 'n' {
        Some(false)
    } else {
        None
    }
}

impl Grid {
    /// The table of `rows` rows and `columns` columns that holds `codes`
    /// row by row, if there are that many codes and at least one.
    pub fn new(rows: usize, columns: usize, codes: Vec<&'static str>) -> (made: Option<Grid>)
        ensures
            made is Some <==> rows > 0 && columns > 0 && rows * columns == codes@.len(),
            made matches Some(table) ==> grid_of(&table) == rows_of(
                codes@,
                rows as nat,
                columns as nat,
            ),
    {
        let count: usize = codes.len();
        if rows == 0 || columns == 0 {
            return None;
        }
        match rows.checked_mul(columns) {
            Some(cells) => {
                if cells == count {
                    grid_from_shape_vec(rows, columns, codes)
                } else {
                    None
                }
            },
            None => None,
        }
    }

    /// Rows and columns.
    pub fn shape(&self) -> (shape: (usize, usize))
        ensures
            grid_of(self).len() == shape.0,
            forall|i: int| 0 <= i < shape.0 ==> (#[trigger] grid_of(self)[i]).len() == shape.1,
    {
        grid_shape(self)
    }

    /// Tells whether the table is `SIDE` by `SIDE`.
    pub fn square(&self) -> (r: bool)
        ensures
            r == is_square(grid_of(self)),
    {
        let shape = grid_shape(self);
        if shape.0 == SIDE && shape.1 != SIDE {
            assert(grid_of(self)[0].len() != SIDE);
        }
        shape.0 == SIDE && shape.1 == SIDE
    }

    /// The code at `row` and `column`, or `None` outside the table.
    pub fn get(&self, row: usize, column: usize) -> (code: Option<&'static str>)
        ensures
            code is Some <==> row < grid_of(self).len() && column < grid_of(self)[row as int].len(),
            code matches Some(c) ==> c@ == grid_of(self)[row as int][column as int],
    {
        let shape = grid_shape(self);
        if row < shape.0 && column < shape.1 {
            Some(grid_cell(self, row, column))
        } else {
            None
        }
    }
}

/// The three tables as contracts see them: each row after the other.
pub struct Tables {
    pub hard: Seq<Action>,
    pub soft: Seq<Action>,
    pub split: Seq<bool>,
}

impl Tables {
    /// The hard table's entry.
    pub open spec fn hard_at(self, row: int, column: int) -> Action {
        self.hard[row * SIDE + column]
    }

    /// The soft table's entry.
    pub open spec fn soft_at(self, row: int, column: int) -> Action {
        self.soft[row * SIDE + column]
    }

    /// The split table's entry.
    pub open spec fn split_at(self, row: int, column: int) -> bool {
        self.split[row * SIDE + column]
    }

    /// Every table is complete, and the hard and soft tables hold only
    /// stand, hit and double.
    pub open spec fn wf(self) -> bool {
        &&& self.hard.len() == SIDE * SIDE
        &&& self.soft.len() == SIDE * SIDE
        &&& self.split.len() == SIDE * SIDE
        &&& forall|k: int| 0 <= k < SIDE * SIDE ==> is_table_action(#[trigger] self.hard[k])
        &&& forall|k: int| 0 <= k < SIDE * SIDE ==> is_table_action(#[trigger] self.soft[k])
    }
}

/// The actions that the codes of a grid stand for, row after row.
pub open spec fn actions_in(grid: Seq<Seq<Seq<char>>>) -> Seq<Action> {
    Seq::new(
        (SIDE * SIDE) as nat,
        |k: int|
            match action_of(grid[k / (SIDE as int)][k % (SIDE as int)]) {
                Some(action) => action,
                None => arbitrary(),
            },
    )
}

/// The answers that the codes of a grid stand for, row after row.
pub open spec fn answers_in(grid: Seq<Seq<Seq<char>>>) -> Seq<bool> {
    Seq::new(
        (SIDE * SIDE) as nat,
        |k: int|
            match answer_of(grid[k / (SIDE as int)][k % (SIDE as int)]) {
                Some(answer) => answer,
                None => arbitrary(),
            },
    )
}

/// The tables that three grids spell.
pub open spec fn spelled(hard: &Grid, soft: &Grid, split: &Grid) -> Tables {
    Tables {
        hard: actions_in(grid_of(hard)),
        soft: actions_in(grid_of(soft)),
        split: answers_in(grid_of(split)),
    }
}

/// The three tables in parsed form: what to do on a hard total, on a soft
/// total, and whether to split a pair, each against the dealer's card.
#[derive(Debug)]
pub struct Strategy {
    hard: Vec<Action>,
    soft: Vec<Action>,
    split: Vec<bool>,
}

impl View for Strategy {
    type V = Tables;

    closed spec fn view(&self) -> Tables {
        Tables { hard: self.hard@, soft: self.soft@, split: self.split@ }
    }
}

impl Strategy {
    /// Every table is complete, and the hard and soft tables hold only
    /// stand, hit and double.
    pub open spec fn wf(&self) -> bool {
        self@.wf()
    }

    /// The strategy that three grids spell. All three must be `SIDE` by
    /// `SIDE`, else the result is `TableShape`; the hard and soft grids
    /// must hold `s`, `h` or `d` in every cell and the split grid `y` or
    /// `n`, else it is `TableCode`.
    pub fn from_grids(hard: &Grid, soft: &Grid, split: &Grid) -> (made: Result<Strategy, SimError>)
        ensures
            made is Ok <==> grids_square(hard, soft, split) && grids_coded(hard, soft, split),
            made == Err::<Strategy, SimError>(SimError::TableShape) <==> !grids_square(
                hard,
                soft,
                split,
            ),
            made == Err::<Strategy, SimError>(SimError::TableCode) <==> grids_square(
                hard,
                soft,
                split,
            ) && !grids_coded(hard, soft, split),
            made matches Ok(rules) ==> rules.wf() && rules@ == spelled(hard, soft, split),
    {
        if !hard.square() || !soft.square() || !split.square() {
            return Err(SimError::TableShape);
        }
        let hard_cells = match read_actions(hard) {
            Some(cells) => cells,
            None => { return Err(SimError::TableCode); },
        };
        let soft_cells = match read_actions(soft) {
            Some(cells) => cells,
            None => { return Err(SimError::TableCode); },
        };
        let split_cells = match read_answers(split) {
            Some(cells) => cells,
            None => { return Err(SimError::TableCode); },
        };
        let rules = Strategy { hard: hard_cells, soft: soft_cells, split: split_cells };
        proof {
            assert(rules@.hard =~= actions_in(grid_of(hard)));
            assert(rules@.soft =~= actions_in(grid_of(soft)));
            assert(rules@.split =~= answers_in(grid_of(split)));
        }
        Ok(rules)
    }

    /// The hard table's entry for a row and a column under `SIDE`.
    pub fn hard(&self, row: usize, column: usize) -> (action: Action)
        requires
            self.wf(),
            row < SIDE,
            column < SIDE,
        ensures
            action == self@.hard_at(row as int, column as int),
            is_table_action(action),
    {
        proof {
            cell_place(row as int, column as int);
        }
        self.hard[row * SIDE + column]
    }

    /// The soft table's entry for a row and a column under `SIDE`.
    pub fn soft(&self, row: usize, column: usize) -> (action: Action)
        requires
            self.wf(),
            row < SIDE,
            column < SIDE,
        ensures
            action == self@.soft_at(row as int, column as int),
            is_table_action(action),
    {
        proof {
            cell_place(row as int, column as int);
        }
        self.soft[row * SIDE + column]
    }

    /// The split table's entry for a row and a column under `SIDE`.
    pub fn split(&self, row: usize, column: usize) -> (answer: bool)
        requires
            self.wf(),
            row < SIDE,
            column < SIDE,
        ensures
            answer == self@.split_at(row as int, column as int),
    {
        proof {
            cell_place(row as int, column as int);
        }
        self.split[row * SIDE + column]
    }
}

/// Stand, hit and double: what a cell of the hard and soft tables can say.
pub open spec fn is_table_action(action: Action) -> bool {
    action == Action::Stand || action == Action::Hit || action == Action::Double
}

/// All three grids are `SIDE` by `SIDE`.
pub open spec fn grids_square(hard: &Grid, soft: &Grid, split: &Grid) -> bool {
    is_square(grid_of(hard)) && is_square(grid_of(soft)) && is_square(grid_of(split))
}

/// Every cell of the three grids holds a code of its table.
pub open spec fn grids_coded(hard: &Grid, soft: &Grid, split: &Grid) -> bool {
    holds_actions(grid_of(hard)) && holds_actions(grid_of(soft)) && holds_answers(grid_of(split))
}

/// Where the cell at row `i` and column `j` stands in a table.
proof fn cell_place(i: int, j: int)
    requires
        0 <= i < SIDE,
        0 <= j < SIDE,
    ensures
        0 <= i * SIDE + j < SIDE * SIDE,
        (i * SIDE + j) / (SIDE as int) == i,
        (i * SIDE + j) % (SIDE as int) == j,
{
}

fn read_actions(grid: &Grid) -> (cells: Option<Vec<Action>>)
    requires
        is_square(grid_of(grid)),
    ensures
        cells is Some <==> holds_actions(grid_of(grid)),
        cells matches Some(v) ==> v@.len() == SIDE * SIDE && forall|n: int|
            0 <= n < SIDE * SIDE ==> Some(#[trigger] v@[n]) == action_of(
                grid_of(grid)[n / (SIDE as int)][n % (SIDE as int)],
            ),
{
    let mut cells: Vec<Action> = Vec::new();
    let mut k: usize = 0;
    while k < SIDE * SIDE
        invariant
            k <= SIDE * SIDE,
            is_square(grid_of(grid)),
            cells@.len() == k,
            forall|n: int|
                0 <= n < k ==> Some(#[trigger] cells@[n]) == action_of(
                    grid_of(grid)[n / (SIDE as int)][n % (SIDE as int)],
                ),
        decreases SIDE * SIDE - k,
    {
        let row: usize = k / SIDE;
        let column: usize = k % SIDE;
        assert(grid_of(grid)[row as int].len() == SIDE);
        match parse_action(grid_cell(grid, row, column)) {
            Some(action) => cells.push(action),
            None => {
                return None;
            },
        }
        k += 1;
    }
    proof {
        assert forall|i: int, j: int| 0 <= i < SIDE && 0 <= j < SIDE implies Some(
            #[trigger] cells@[i * SIDE + j],
        ) == action_of(grid_of(grid)[i][j]) by {
            cell_place(i, j);
        }
        assert forall|i: int, j: int| 0 <= i < SIDE && 0 <= j < SIDE implies action_of(
            #[trigger] grid_of(grid)[i][j],
        ) is Some by {
            cell_place(i, j);
            assert(Some(cells@[i * SIDE + j]) == action_of(grid_of(grid)[i][j]));
        }
    }
    Some(cells)
}

fn read_answers(grid: &Grid) -> (cells: Option<Vec<bool>>)
    requires
        is_square(grid_of(grid)),
    ensures
        cells is Some <==> holds_answers(grid_of(grid)),
        cells matches Some(v) ==> v@.len() == SIDE * SIDE && forall|n: int|
            0 <= n < SIDE * SIDE ==> Some(#[trigger] v@[n]) == answer_of(
                grid_of(grid)[n / (SIDE as int)][n % (SIDE as int)],
            ),
{
    let mut cells: Vec<bool> = Vec::new();
    let mut k: usize = 0;
    while k < SIDE * SIDE
        invariant
            k <= SIDE * SIDE,
            is_square(grid_of(grid)),
            cells@.len() == k,
            forall|n: int|
                0 <= n < k ==> Some(#[trigger] cells@[n]) == answer_of(
                    grid_of(grid)[n / (SIDE as int)][n % (SIDE as int)],
                ),
        decreases SIDE * SIDE - k,
    {
        let row: usize = k / SIDE;
        let column: usize = k % SIDE;
        assert(grid_of(grid)[row as int].len() == SIDE);
        match parse_answer(grid_cell(grid, row, column)) {
            Some(answer) => cells.push(answer),
            None => {
                return None;
            },
        }
        k += 1;
    }
    proof {
        assert forall|i: int, j: int| 0 <= i < SIDE && 0 <= j < SIDE implies Some(
            #[trigger] cells@[i * SIDE + j],
        ) == answer_of(grid_of(grid)[i][j]) by {
            cell_place(i, j);
        }
        assert forall|i: int, j: int| 0 <= i < SIDE && 0 <= j < SIDE implies answer_of(
            #[trigger] grid_of(grid)[i][j],
        ) is Some by {
            cell_place(i, j);
            assert(Some(cells@[i * SIDE + j]) == answer_of(grid_of(grid)[i][j]));
        }
    }
    Some(cells)
}

} // verus!
