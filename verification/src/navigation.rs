//! The cursor and its moves over the grid of sections, rows and columns.
//!
//! The grid is described by the length of each section and the row width.
//! Every move is total: a cursor that does not point at a cell of the grid is
//! treated as no cursor, and a move that would leave the grid stays in place.

use vstd::prelude::*;

use crate::layout::{clamp_per_row, columns_in, lemma_row_range, row_count, row_len, rows_in, width};

verus! {

/// A cell of the grid: a section, a row of that section, a column of that row.
#[derive(Clone, Copy, Debug, PartialEq, Eq, Structural)]
pub struct IndexPath {
    pub section: usize,
    pub row: usize,
    pub column: usize,
}

/// A direction in which the cursor moves.
#[derive(Clone, Copy, Debug, PartialEq, Eq, Structural)]
pub enum Direction {
    Up,
    Down,
    Left,
    Right,
}

/// Whether `path` points at a cell of the grid.
pub open spec fn valid_path(lens: Seq<usize>, per_row: nat, path: IndexPath) -> bool {
    &&& path.section < lens.len()
    &&& path.row < rows_in(lens[path.section as int] as nat, per_row)
    &&& path.column < columns_in(lens[path.section as int] as nat, per_row, path.row as nat)
}

/// Whether `cursor` is unset or points at a cell of the grid.
pub open spec fn valid_cursor(lens: Seq<usize>, per_row: nat, cursor: Option<IndexPath>) -> bool {
    cursor matches Some(path) ==> valid_path(lens, per_row, path)
}

/// Whether `section` is a section of the grid that holds at least one entry.
pub open spec fn has_entries(lens: Seq<usize>, section: int) -> bool {
    0 <= section < lens.len() && section <= usize::MAX && lens[section] > 0
}

/// The smaller of two numbers.
pub open spec fn lesser(a: int, b: int) -> int {
    if a <= b {
        a
    } else {
        b
    }
}

/// The cell that a cursor takes when it is set for the first time: the first
/// cell of the first section, if there is one.
pub open spec fn first_cell(lens: Seq<usize>) -> Option<IndexPath> {
    if has_entries(lens, 0) {
        Some(IndexPath { section: 0, row: 0, column: 0 })
    } else {
        None
    }
}

/// The last cell of a section that holds entries.
pub open spec fn last_cell(lens: Seq<usize>, per_row: nat, section: int) -> IndexPath {
    let len = lens[section] as nat;
    let row = (rows_in(len, per_row) - 1) as nat;
    IndexPath {
        section: section as usize,
        row: row as usize,
        column: (columns_in(len, per_row, row) - 1) as usize,
    }
}

/// The cell to the right of a cell: the next entry of the section, at the
/// start of the next row where the row ends; the first cell of the next
/// section where the section ends; the cell itself at the end of the grid.
pub open spec fn right_of(lens: Seq<usize>, per_row: nat, path: IndexPath) -> IndexPath {
    let len = lens[path.section as int] as nat;
    if path.row * width(per_row) + path.column + 1 < len {
        if path.column + 1 == width(per_row) {
            IndexPath { section: path.section, row: (path.row + 1) as usize, column: 0 }
        } else {
            IndexPath { section: path.section, row: path.row, column: (path.column + 1) as usize }
        }
    } else if has_entries(lens, path.section + 1) {
        IndexPath { section: (path.section + 1) as usize, row: 0, column: 0 }
    } else {
        path
    }
}

/// The cell to the left of a cell: the previous entry of the section, at the
/// end of the previous row where the row begins; the last cell of the previous
/// section where the section begins; the cell itself at the start of the grid.
pub open spec fn left_of(lens: Seq<usize>, per_row: nat, path: IndexPath) -> IndexPath {
    if path.column > 0 {
        IndexPath { section: path.section, row: path.row, column: (path.column - 1) as usize }
    } else if path.row > 0 {
        IndexPath {
            section: path.section,
            row: (path.row - 1) as usize,
            column: (width(per_row) - 1) as usize,
        }
    } else if has_entries(lens, path.section - 1) {
        last_cell(lens, per_row, path.section - 1)
    } else {
        path
    }
}

/// The cell below a cell: the same column of the next row, or that row's last
/// column where the row is shorter; in the last row of a section, the same
/// column of the next section's first row, or that row's last column; the cell
/// itself in the last row of the grid.
pub open spec fn down_of(lens: Seq<usize>, per_row: nat, path: IndexPath) -> IndexPath {
    let len = lens[path.section as int] as nat;
    if (path.row + 1) * width(per_row) < len {
        IndexPath {
            section: path.section,
            row: (path.row + 1) as usize,
            column: lesser(
                path.column as int,
                columns_in(len, per_row, (path.row + 1) as nat) - 1,
            ) as usize,
        }
    } else if has_entries(lens, path.section + 1) {
        IndexPath {
            section: (path.section + 1) as usize,
            row: 0,
            column: lesser(
                path.column as int,
                lesser(lens[path.section + 1] - 1, width(per_row) - 1),
            ) as usize,
        }
    } else {
        path
    }
}

/// The cell above a cell: the same column of the previous row; in the first
/// row of a section, the same column of the previous section's last row, or
/// that row's last column where the row is shorter; the cell itself in the
/// first row of the grid.
pub open spec fn up_of(lens: Seq<usize>, per_row: nat, path: IndexPath) -> IndexPath {
    if path.row > 0 {
        IndexPath { section: path.section, row: (path.row - 1) as usize, column: path.column }
    } else if has_entries(lens, path.section - 1) {
        let last = last_cell(lens, per_row, path.section - 1);
        IndexPath {
            section: last.section,
            row: last.row,
            column: lesser(path.column as int, last.column as int) as usize,
        }
    } else {
        path
    }
}

/// The neighbour of a cell in a direction.
pub open spec fn neighbour(
    lens: Seq<usize>,
    per_row: nat,
    path: IndexPath,
    direction: Direction,
) -> IndexPath {
    match direction {
        Direction::Up => up_of(lens, per_row, path),
        Direction::Down => down_of(lens, per_row, path),
        Direction::Left => left_of(lens, per_row, path),
        Direction::Right => right_of(lens, per_row, path),
    }
}

/// The cursor after one move. From a cell of the grid the cursor goes to the
/// cell's neighbour; from no cursor, or from a path that points outside the
/// grid, it goes to the first cell, if the grid has one.
pub open spec fn step(
    lens: Seq<usize>,
    per_row: nat,
    cursor: Option<IndexPath>,
    direction: Direction,
) -> Option<IndexPath> {
    match cursor {
        Some(path) => if valid_path(lens, per_row, path) {
            Some(neighbour(lens, per_row, path, direction))
        } else {
            first_cell(lens)
        },
        None => first_cell(lens),
    }
}

/// The cursor after a sequence of moves.
pub open spec fn run(
    lens: Seq<usize>,
    per_row: nat,
    cursor: Option<IndexPath>,
    moves: Seq<Direction>,
) -> Option<IndexPath>
    decreases moves.len(),
{
    if moves.len() == 0 {
        cursor
    } else {
        step(lens, per_row, run(lens, per_row, cursor, moves.drop_last()), moves.last())
    }
}

/// Whether a cell lies strictly inside its section: it has a row above and a
/// row below in the section, and a column on either side in its row.
pub open spec fn interior(lens: Seq<usize>, per_row: nat, path: IndexPath) -> bool {
    &&& valid_path(lens, per_row, path)
    &&& 0 < path.row
    &&& path.row + 1 < rows_in(lens[path.section as int] as nat, per_row)
    &&& 0 < path.column
    &&& path.column + 1 < columns_in(lens[path.section as int] as nat, per_row, path.row as nat)
}

/// A section with entries has a first cell and a last cell.
pub proof fn lemma_section_ends(lens: Seq<usize>, per_row: nat, section: int)
    requires
        has_entries(lens, section),
    ensures
        valid_path(lens, per_row, IndexPath { section: section as usize, row: 0, column: 0 }),
        valid_path(lens, per_row, last_cell(lens, per_row, section)),
        last_cell(lens, per_row, section).section == section,
        last_cell(lens, per_row, section).row + 1 == rows_in(lens[section] as nat, per_row),
        last_cell(lens, per_row, section).row * width(per_row) + last_cell(
            lens,
            per_row,
            section,
        ).column + 1 == lens[section],
        columns_in(lens[section] as nat, per_row, 0) == lesser(
            lens[section] as int,
            width(per_row) as int,
        ),
{
    let len = lens[section] as nat;
    lemma_row_range(len, per_row, 0);
    assert(0 * width(per_row) == 0);
    let rows = rows_in(len, per_row);
    lemma_row_range(len, per_row, (rows - 1) as nat);
}

/// A path with a column inside its row points at a cell, and the other way
/// round: the row then exists, and the cell's offset lies inside the section.
pub proof fn lemma_valid_path_offset(lens: Seq<usize>, per_row: nat, path: IndexPath)
    ensures
        valid_path(lens, per_row, path) <==> path.section < lens.len() && path.column < columns_in(
            lens[path.section as int] as nat,
            per_row,
            path.row as nat,
        ),
        valid_path(lens, per_row, path) <==> path.section < lens.len() && path.column < width(
            per_row,
        ) && path.row * width(per_row) + path.column < lens[path.section as int],
{
    if path.section < lens.len() {
        lemma_row_range(lens[path.section as int] as nat, per_row, path.row as nat);
    }
}

/// The neighbour of a cell of the grid is a cell of the grid.
pub proof fn lemma_neighbour_valid(
    lens: Seq<usize>,
    per_row: nat,
    path: IndexPath,
    direction: Direction,
)
    requires
        valid_path(lens, per_row, path),
    ensures
        valid_path(lens, per_row, neighbour(lens, per_row, path, direction)),
{
    let len = lens[path.section as int] as nat;
    let next = neighbour(lens, per_row, path, direction);
    lemma_row_range(len, per_row, path.row as nat);
    lemma_row_range(len, per_row, (path.row + 1) as nat);
    lemma_valid_path_offset(lens, per_row, path);
    lemma_valid_path_offset(lens, per_row, next);
    if has_entries(lens, path.section + 1) {
        lemma_section_ends(lens, per_row, path.section + 1);
    }
    if has_entries(lens, path.section - 1) {
        lemma_section_ends(lens, per_row, path.section - 1);
    }
    if path.row > 0 {
        lemma_row_range(len, per_row, (path.row - 1) as nat);
    }
}

/// One move leaves the cursor unset or on a cell of the grid, whatever it was
/// before.
pub proof fn lemma_step_valid(
    lens: Seq<usize>,
    per_row: nat,
    cursor: Option<IndexPath>,
    direction: Direction,
)
    ensures
        valid_cursor(lens, per_row, step(lens, per_row, cursor, direction)),
{
    if has_entries(lens, 0) {
        lemma_section_ends(lens, per_row, 0);
    }
    if let Some(path) = cursor {
        if valid_path(lens, per_row, path) {
            lemma_neighbour_valid(lens, per_row, path, direction);
        }
    }
}

/// Moves never lead out of the grid: after any sequence of moves, from a
/// cursor that is unset or on a cell of the grid, the cursor is unset or on a
/// cell of the grid.
pub proof fn lemma_run_valid(
    lens: Seq<usize>,
    per_row: nat,
    cursor: Option<IndexPath>,
    moves: Seq<Direction>,
)
    requires
        valid_cursor(lens, per_row, cursor),
    ensures
        valid_cursor(lens, per_row, run(lens, per_row, cursor, moves)),
    decreases moves.len(),
{
    if moves.len() > 0 {
        lemma_step_valid(
            lens,
            per_row,
            run(lens, per_row, cursor, moves.drop_last()),
            moves.last(),
        );
    }
}

/// A move to the left undoes a move to the right that went anywhere.
pub proof fn lemma_left_undoes_right(lens: Seq<usize>, per_row: nat, path: IndexPath)
    requires
        valid_path(lens, per_row, path),
        right_of(lens, per_row, path) != path,
    ensures
        left_of(lens, per_row, right_of(lens, per_row, path)) == path,
{
    let len = lens[path.section as int] as nat;
    lemma_row_range(len, per_row, path.row as nat);
    lemma_valid_path_offset(lens, per_row, path);
    if !(path.row * width(per_row) + path.column + 1 < len) {
        lemma_section_ends(lens, per_row, path.section as int);
        let last = last_cell(lens, per_row, path.section as int);
        lemma_row_range(len, per_row, last.row as nat);
        if path.row < last.row {
            assert((path.row + 1) * width(per_row) <= last.row * width(per_row))
                by (nonlinear_arith)
                requires
                    path.row + 1 <= last.row,
            ;
        }
    }
}

/// A move up undoes a move down that went anywhere and kept the column.
pub proof fn lemma_up_undoes_down(lens: Seq<usize>, per_row: nat, path: IndexPath)
    requires
        valid_path(lens, per_row, path),
        down_of(lens, per_row, path) != path,
        down_of(lens, per_row, path).column == path.column,
    ensures
        up_of(lens, per_row, down_of(lens, per_row, path)) == path,
{
    let len = lens[path.section as int] as nat;
    lemma_row_range(len, per_row, path.row as nat);
    lemma_row_range(len, per_row, (path.row + 1) as nat);
    lemma_valid_path_offset(lens, per_row, path);
    if !((path.row + 1) * width(per_row) < len) {
        lemma_section_ends(lens, per_row, path.section as int);
    }
}

/// At a cell strictly inside its section, a move right and then left comes
/// back to the cell.
pub proof fn lemma_right_left_at_interior(lens: Seq<usize>, per_row: nat, path: IndexPath)
    requires
        interior(lens, per_row, path),
    ensures
        step(
            lens,
            per_row,
            step(lens, per_row, Some(path), Direction::Right),
            Direction::Left,
        ) == Some(path),
{
    lemma_row_range(lens[path.section as int] as nat, per_row, path.row as nat);
    lemma_neighbour_valid(lens, per_row, path, Direction::Right);
    lemma_left_undoes_right(lens, per_row, path);
}

/// At a cell strictly inside its section that has a cell below it in the same
/// column, a move down and then up comes back to the cell.
pub proof fn lemma_down_up_at_interior(lens: Seq<usize>, per_row: nat, path: IndexPath)
    requires
        interior(lens, per_row, path),
        path.column < columns_in(
            lens[path.section as int] as nat,
            per_row,
            (path.row + 1) as nat,
        ),
    ensures
        step(lens, per_row, step(lens, per_row, Some(path), Direction::Down), Direction::Up)
            == Some(path),
{
    lemma_row_range(lens[path.section as int] as nat, per_row, (path.row + 1) as nat);
    lemma_neighbour_valid(lens, per_row, path, Direction::Down);
    lemma_up_undoes_down(lens, per_row, path);
}

/// Whether `path` points at a cell of the grid.
pub fn is_valid_path(lens: &Vec<usize>, per_row: usize, path: IndexPath) -> (ok: bool)
    ensures
        ok == valid_path(lens@, per_row as nat, path),
{
    proof {
        lemma_valid_path_offset(lens@, per_row as nat, path);
    }
    if path.section >= lens.len() {
        false
    } else {
        path.column < row_len(lens[path.section], per_row, path.row)
    }
}

/// The cell that a cursor takes when it is set for the first time.
pub fn first_path(lens: &Vec<usize>) -> (first: Option<IndexPath>)
    ensures
        first == first_cell(lens@),
{
    if lens.len() > 0 && lens[0] > 0 {
        Some(IndexPath { section: 0, row: 0, column: 0 })
    } else {
        None
    }
}

/// The last cell of section `section`, which must hold entries.
fn last_path(lens: &Vec<usize>, per_row: usize, section: usize) -> (last: IndexPath)
    requires
        has_entries(lens@, section as int),
    ensures
        last == last_cell(lens@, per_row as nat, section as int),
{
    proof {
        lemma_section_ends(lens@, per_row as nat, section as int);
    }
    let len: usize = lens[section];
    let row: usize = row_count(len, per_row) - 1;
    let columns: usize = row_len(len, per_row, row);
    IndexPath { section, row, column: columns - 1 }
}

/// Moves the cursor one cell to the right.
pub fn move_right(lens: &Vec<usize>, per_row: usize, cursor: Option<IndexPath>) -> (next: Option<
    IndexPath,
>)
    ensures
        next == step(lens@, per_row as nat, cursor, Direction::Right),
        valid_cursor(lens@, per_row as nat, next),
{
    proof {
        lemma_step_valid(lens@, per_row as nat, cursor, Direction::Right);
    }
    match cursor {
        Some(path) => {
            if !is_valid_path(lens, per_row, path) {
                return first_path(lens);
            }
            proof {
                lemma_valid_path_offset(lens@, per_row as nat, path);
            }
            let w: usize = clamp_per_row(per_row);
            let sections: usize = lens.len();
            let len: usize = lens[path.section];
            proof {
                lemma_row_range(len as nat, per_row as nat, path.row as nat);
            }
            let offset: usize = path.row * w + path.column;
            if offset + 1 < len {
                if path.column + 1 == w {
                    Some(IndexPath { section: path.section, row: path.row + 1, column: 0 })
                } else {
                    Some(
                        IndexPath {
                            section: path.section,
                            row: path.row,
                            column: path.column + 1,
                        },
                    )
                }
            } else if path.section + 1 < sections && lens[path.section + 1] > 0 {
                Some(IndexPath { section: path.section + 1, row: 0, column: 0 })
            } else {
                Some(path)
            }
        },
        None => first_path(lens),
    }
}

/// Moves the cursor one cell to the left.
pub fn move_left(lens: &Vec<usize>, per_row: usize, cursor: Option<IndexPath>) -> (next: Option<
    IndexPath,
>)
    ensures
        next == step(lens@, per_row as nat, cursor, Direction::Left),
        valid_cursor(lens@, per_row as nat, next),
{
    proof {
        lemma_step_valid(lens@, per_row as nat, cursor, Direction::Left);
    }
    match cursor {
        Some(path) => {
            if !is_valid_path(lens, per_row, path) {
                return first_path(lens);
            }
            let w: usize = clamp_per_row(per_row);
            if path.column > 0 {
                Some(IndexPath { section: path.section, row: path.row, column: path.column - 1 })
            } else if path.row > 0 {
                Some(IndexPath { section: path.section, row: path.row - 1, column: w - 1 })
            } else if path.section > 0 && lens[path.section - 1] > 0 {
                Some(last_path(lens, per_row, path.section - 1))
            } else {
                Some(path)
            }
        },
        None => first_path(lens),
    }
}

/// Moves the cursor one row down.
pub fn move_down(lens: &Vec<usize>, per_row: usize, cursor: Option<IndexPath>) -> (next: Option<
    IndexPath,
>)
    ensures
        next == step(lens@, per_row as nat, cursor, Direction::Down),
        valid_cursor(lens@, per_row as nat, next),
{
    proof {
        lemma_step_valid(lens@, per_row as nat, cursor, Direction::Down);
    }
    match cursor {
        Some(path) => {
            if !is_valid_path(lens, per_row, path) {
                return first_path(lens);
            }
            let w: usize = clamp_per_row(per_row);
            let sections: usize = lens.len();
            let len: usize = lens[path.section];
            proof {
                lemma_row_range(len as nat, per_row as nat, path.row as nat);
                lemma_row_range(len as nat, per_row as nat, (path.row + 1) as nat);
            }
            let below: usize = row_len(len, per_row, path.row + 1);
            if below > 0 {
                let column: usize = if path.column < below {
                    path.column
                } else {
                    below - 1
                };
                Some(IndexPath { section: path.section, row: path.row + 1, column })
            } else if path.section + 1 < sections && lens[path.section + 1] > 0 {
                let first_row: usize = if lens[path.section + 1] < w {
                    lens[path.section + 1]
                } else {
                    w
                };
                let column: usize = if path.column < first_row {
                    path.column
                } else {
                    first_row - 1
                };
                Some(IndexPath { section: path.section + 1, row: 0, column })
            } else {
                Some(path)
            }
        },
        None => first_path(lens),
    }
}

/// Moves the cursor one row up.
pub fn move_up(lens: &Vec<usize>, per_row: usize, cursor: Option<IndexPath>) -> (next: Option<
    IndexPath,
>)
    ensures
        next == step(lens@, per_row as nat, cursor, Direction::Up),
        valid_cursor(lens@, per_row as nat, next),
{
    proof {
        lemma_step_valid(lens@, per_row as nat, cursor, Direction::Up);
    }
    match cursor {
        Some(path) => {
            if !is_valid_path(lens, per_row, path) {
                return first_path(lens);
            }
            if path.row > 0 {
                Some(IndexPath { section: path.section, row: path.row - 1, column: path.column })
            } else if path.section > 0 && lens[path.section - 1] > 0 {
                let last: IndexPath = last_path(lens, per_row, path.section - 1);
                let column: usize = if path.column < last.column {
                    path.column
                } else {
                    last.column
                };
                Some(IndexPath { section: last.section, row: last.row, column })
            } else {
                Some(path)
            }
        },
        None => first_path(lens),
    }
}

/// Moves the cursor one cell in a direction.
pub fn move_cursor(
    lens: &Vec<usize>,
    per_row: usize,
    cursor: Option<IndexPath>,
    direction: Direction,
) -> (next: Option<IndexPath>)
    ensures
        next == step(lens@, per_row as nat, cursor, direction),
        valid_cursor(lens@, per_row as nat, next),
{
    match direction {
        Direction::Up => move_up(lens, per_row, cursor),
        Direction::Down => move_down(lens, per_row, cursor),
        Direction::Left => move_left(lens, per_row, cursor),
        Direction::Right => move_right(lens, per_row, cursor),
    }
}

} // verus!
