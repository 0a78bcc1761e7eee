//! Rows of a fixed width: how a section of `len` entries is laid out in a grid.

use vstd::prelude::*;

verus! {

/// Fewest entries a row is given when the width is fitted to a window.
pub const MIN_EMOJIS_PER_ROW: usize = 8;

/// Most entries a row is given when the width is fitted to a window.
pub const MAX_EMOJIS_PER_ROW: usize = 20;

/// The row width in use for a requested width: at least one entry per row.
pub open spec fn width(per_row: nat) -> nat {
    if per_row == 0 {
        1
    } else {
        per_row
    }
}

/// Number of rows that `len` entries take: `len / width`, rounded up.
pub open spec fn rows_in(len: nat, per_row: nat) -> nat {
    ((len + width(per_row) - 1) / (width(per_row) as int)) as nat
}

/// Number of entries in row `row` of a section of `len` entries; 0 where the
/// section has no such row.
pub open spec fn columns_in(len: nat, per_row: nat, row: nat) -> nat {
    let start = row * width(per_row);
    if start >= len {
        0
    } else if len - start < width(per_row) {
        (len - start) as nat
    } else {
        width(per_row)
    }
}

/// Number of entries in the first `rows` rows of a section of `len` entries.
pub open spec fn cells_before(len: nat, per_row: nat, rows: nat) -> nat
    decreases rows,
{
    if rows == 0 {
        0
    } else {
        cells_before(len, per_row, (rows - 1) as nat) + columns_in(
            len,
            per_row,
            (rows - 1) as nat,
        )
    }
}

/// Row `row` of `entries`, empty where there is no such row.
pub open spec fn row_of<T>(entries: Seq<T>, per_row: nat, row: nat) -> Seq<T> {
    let start = row * width(per_row);
    entries.subrange(start as int, (start + columns_in(entries.len(), per_row, row)) as int)
}

/// The first `rows` rows of `entries`, one after the other.
pub open spec fn rows_joined<T>(entries: Seq<T>, per_row: nat, rows: nat) -> Seq<T>
    decreases rows,
{
    if rows == 0 {
        Seq::empty()
    } else {
        rows_joined(entries, per_row, (rows - 1) as nat) + row_of(
            entries,
            per_row,
            (rows - 1) as nat,
        )
    }
}

/// Where rows begin and end: row `row` exists exactly when its first cell lies
/// inside the section, every row but the last is full, and the last row ends
/// with the section.
pub proof fn lemma_row_range(len: nat, per_row: nat, row: nat)
    ensures
        row < rows_in(len, per_row) <==> row * width(per_row) < len,
        row < rows_in(len, per_row) ==> 1 <= columns_in(len, per_row, row) <= width(per_row),
        row < rows_in(len, per_row) ==> row * width(per_row) + columns_in(len, per_row, row)
            <= len,
        row + 1 < rows_in(len, per_row) ==> columns_in(len, per_row, row) == width(per_row),
        row + 1 == rows_in(len, per_row) ==> row * width(per_row) + columns_in(len, per_row, row)
            == len,
        row >= rows_in(len, per_row) ==> columns_in(len, per_row, row) == 0,
        (row + 1) * width(per_row) == row * width(per_row) + width(per_row),
        row <= row * width(per_row),
        rows_in(len, per_row) <= len,
{
    let w = width(per_row) as int;
    let q = rows_in(len, per_row) as int;
    let l = len as int;
    let r = row as int;
    assert(q == (l + w - 1) / w);
    assert(q * w <= l + w - 1 < q * w + w) by (nonlinear_arith)
        requires
            w >= 1,
            l >= 0,
            q == (l + w - 1) / w,
    ;
    assert((r + 1) * w == r * w + w) by (nonlinear_arith);
    assert(r <= r * w) by (nonlinear_arith)
        requires
            r >= 0,
            w >= 1,
    ;
    assert(q <= l) by (nonlinear_arith)
        requires
            q * w <= l + w - 1,
            w >= 1,
            l >= 0,
            q >= 0,
    ;
    if r < q {
        assert((r + 1) * w <= q * w) by (nonlinear_arith)
            requires
                r + 1 <= q,
                w >= 1,
        ;
    } else {
        assert(r * w >= q * w) by (nonlinear_arith)
            requires
                r >= q,
                w >= 1,
        ;
    }
    if r + 1 < q {
        assert((r + 2) * w <= q * w) by (nonlinear_arith)
            requires
                r + 2 <= q,
                w >= 1,
        ;
        assert((r + 2) * w == r * w + 2 * w) by (nonlinear_arith);
    }
}

/// The rows of a section hold all of its entries exactly once: the first
/// `rows` rows together hold `rows * width` entries, or all of them.
pub proof fn lemma_cells_before(len: nat, per_row: nat, rows: nat)
    ensures
        rows <= rows_in(len, per_row) ==> cells_before(len, per_row, rows) == if rows == rows_in(
            len,
            per_row,
        ) {
            len
        } else {
            rows * width(per_row)
        },
    decreases rows,
{
    if rows == 0 {
        lemma_row_range(len, per_row, 0);
    } else if rows <= rows_in(len, per_row) {
        let prev = (rows - 1) as nat;
        lemma_cells_before(len, per_row, prev);
        lemma_row_range(len, per_row, prev);
    }
}

/// Laying a section out in rows loses nothing: the row lengths add up to the
/// section's length, no row is longer than the width or empty, and only the
/// last row may be shorter than the width.
pub proof fn lemma_rows_cover(len: nat, per_row: nat)
    ensures
        cells_before(len, per_row, rows_in(len, per_row)) == len,
        forall|row: nat|
            row < rows_in(len, per_row) ==> 1 <= #[trigger] columns_in(len, per_row, row) <= width(
                per_row,
            ),
        forall|row: nat|
            row + 1 < rows_in(len, per_row) ==> #[trigger] columns_in(len, per_row, row) == width(
                per_row,
            ),
        forall|row: nat| row >= rows_in(len, per_row) ==> #[trigger] columns_in(len, per_row, row) == 0,
{
    lemma_cells_before(len, per_row, rows_in(len, per_row));
    assert forall|row: nat| row < rows_in(len, per_row) implies 1 <= #[trigger] columns_in(
        len,
        per_row,
        row,
    ) <= width(per_row) by {
        lemma_row_range(len, per_row, row);
    }
    assert forall|row: nat| row + 1 < rows_in(len, per_row) implies #[trigger] columns_in(
        len,
        per_row,
        row,
    ) == width(per_row) by {
        lemma_row_range(len, per_row, row);
    }
    assert forall|row: nat| row >= rows_in(len, per_row) implies #[trigger] columns_in(
        len,
        per_row,
        row,
    ) == 0 by {
        lemma_row_range(len, per_row, row);
    }
}

/// The first `rows` rows of a sequence, joined, are its first `rows * width`
/// entries (or all of them).
pub proof fn lemma_rows_joined_prefix<T>(entries: Seq<T>, per_row: nat, rows: nat)
    requires
        rows <= rows_in(entries.len(), per_row),
    ensures
        rows_joined(entries, per_row, rows) == entries.subrange(
            0,
            cells_before(entries.len(), per_row, rows) as int,
        ),
        cells_before(entries.len(), per_row, rows) <= entries.len(),
    decreases rows,
{
    let len = entries.len();
    if rows > 0 {
        let prev = (rows - 1) as nat;
        lemma_rows_joined_prefix(entries, per_row, prev);
        lemma_cells_before(len, per_row, prev);
        lemma_cells_before(len, per_row, rows);
        lemma_row_range(len, per_row, prev);
        lemma_row_range(len, per_row, rows);
        assert(cells_before(len, per_row, prev) == prev * width(per_row));
        assert(rows_joined(entries, per_row, rows) =~= entries.subrange(
            0,
            cells_before(len, per_row, rows) as int,
        ));
    } else {
        assert(rows_joined(entries, per_row, rows) =~= entries.subrange(0, 0));
    }
}

/// Joining all rows of a sequence gives the sequence back.
pub proof fn lemma_rows_joined_all<T>(entries: Seq<T>, per_row: nat)
    ensures
        rows_joined(entries, per_row, rows_in(entries.len(), per_row)) == entries,
{
    lemma_rows_joined_prefix(entries, per_row, rows_in(entries.len(), per_row));
    lemma_cells_before(entries.len(), per_row, rows_in(entries.len(), per_row));
    assert(entries.subrange(0, entries.len() as int) =~= entries);
}

/// The row width in use for a requested width: a request for 0 gives 1.
pub fn clamp_per_row(per_row: usize) -> (w: usize)
    ensures
        w == width(per_row as nat),
        w >= 1,
{
    if per_row == 0 {
        1
    } else {
        per_row
    }
}

/// The row width for a window in which `ideal` entries would fit side by side:
/// `ideal`, held between [`MIN_EMOJIS_PER_ROW`] and [`MAX_EMOJIS_PER_ROW`].
pub fn fit_per_row(ideal: usize) -> (w: usize)
    ensures
        MIN_EMOJIS_PER_ROW <= w <= MAX_EMOJIS_PER_ROW,
        MIN_EMOJIS_PER_ROW <= ideal <= MAX_EMOJIS_PER_ROW ==> w == ideal,
        ideal < MIN_EMOJIS_PER_ROW ==> w == MIN_EMOJIS_PER_ROW,
        ideal > MAX_EMOJIS_PER_ROW ==> w == MAX_EMOJIS_PER_ROW,
{
    if ideal < MIN_EMOJIS_PER_ROW {
        MIN_EMOJIS_PER_ROW
    } else if ideal > MAX_EMOJIS_PER_ROW {
        MAX_EMOJIS_PER_ROW
    } else {
        ideal
    }
}

/// Number of rows that `len` entries take at `per_row` entries per row.
pub fn row_count(len: usize, per_row: usize) -> (rows: usize)
    ensures
        rows == rows_in(len as nat, per_row as nat),
        rows <= len,
{
    let w: usize = clamp_per_row(per_row);
    if len == 0 {
        assert(rows_in(0, per_row as nat) == 0) by (nonlinear_arith)
            requires
                rows_in(0, per_row as nat) == ((w - 1) / (w as int)) as nat,
                w >= 1,
        ;
        0
    } else {
        let below: usize = (len - 1) / w;
        proof {
            let l = len as int;
            let d = w as int;
            assert((l - 1) / d <= l - 1 && (l - 1) / d >= 0 && (l - 1 + d) / d == (l - 1) / d + 1)
                by (nonlinear_arith)
                requires
                    l >= 1,
                    d >= 1,
            ;
        }
        below + 1
    }
}

/// Number of entries in row `row` of a section of `len` entries; 0 where the
/// section has no such row.
pub fn row_len(len: usize, per_row: usize, row: usize) -> (columns: usize)
    ensures
        columns == columns_in(len as nat, per_row as nat, row as nat),
        columns <= len,
{
    let w: usize = clamp_per_row(per_row);
    let rows: usize = row_count(len, per_row);
    proof {
        lemma_row_range(len as nat, per_row as nat, row as nat);
    }
    if row >= rows {
        0
    } else {
        let start: usize = row * w;
        if len - start < w {
            len - start
        } else {
            w
        }
    }
}

/// Where row `row` of a section of `len` entries begins and ends, as offsets
/// into the section; `None` where the section has no such row.
pub fn row_bounds(len: usize, per_row: usize, row: usize) -> (bounds: Option<(usize, usize)>)
    ensures
        bounds.is_some() <==> row < rows_in(len as nat, per_row as nat),
        bounds matches Some((start, end)) ==> {
            &&& start == row * width(per_row as nat)
            &&& end == start + columns_in(len as nat, per_row as nat, row as nat)
            &&& start < end <= len
        },
{
    let w: usize = clamp_per_row(per_row);
    let rows: usize = row_count(len, per_row);
    proof {
        lemma_row_range(len as nat, per_row as nat, row as nat);
    }
    if row >= rows {
        None
    } else {
        let start: usize = row * w;
        let columns: usize = row_len(len, per_row, row);
        Some((start, start + columns))
    }
}

} // verus!
