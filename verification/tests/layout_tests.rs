use emoji_picker::layout::{
    clamp_per_row, fit_per_row, row_bounds, row_count, row_len, MAX_EMOJIS_PER_ROW,
    MIN_EMOJIS_PER_ROW,
};

#[test]
fn clamp_per_row_turns_zero_into_one() {
    assert_eq!(clamp_per_row(0), 1);
    assert_eq!(clamp_per_row(1), 1);
    assert_eq!(clamp_per_row(7), 7);
}

#[test]
fn fit_per_row_holds_the_width_between_its_bounds() {
    assert_eq!(MIN_EMOJIS_PER_ROW, 8);
    assert_eq!(MAX_EMOJIS_PER_ROW, 20);
    assert_eq!(fit_per_row(0), 8);
    assert_eq!(fit_per_row(7), 8);
    assert_eq!(fit_per_row(8), 8);
    assert_eq!(fit_per_row(13), 13);
    assert_eq!(fit_per_row(20), 20);
    assert_eq!(fit_per_row(21), 20);
    assert_eq!(fit_per_row(usize::MAX), 20);
}

#[test]
fn row_count_rounds_up() {
    assert_eq!(row_count(0, 4), 0);
    assert_eq!(row_count(1, 4), 1);
    assert_eq!(row_count(4, 4), 1);
    assert_eq!(row_count(5, 4), 2);
    assert_eq!(row_count(8, 4), 2);
    assert_eq!(row_count(9, 4), 3);
    assert_eq!(row_count(3, 2), 2);
}

#[test]
fn row_count_with_zero_width_uses_width_one() {
    assert_eq!(row_count(0, 0), 0);
    assert_eq!(row_count(5, 0), 5);
}

#[test]
fn row_count_does_not_overflow_on_large_lengths() {
    assert_eq!(row_count(usize::MAX, 1), usize::MAX);
    assert_eq!(row_count(usize::MAX, usize::MAX), 1);
    assert_eq!(row_count(usize::MAX, 2), usize::MAX / 2 + 1);
}

#[test]
fn row_len_of_full_and_last_rows() {
    assert_eq!(row_len(7, 3, 0), 3);
    assert_eq!(row_len(7, 3, 1), 3);
    assert_eq!(row_len(7, 3, 2), 1);
    assert_eq!(row_len(7, 3, 3), 0);
    assert_eq!(row_len(6, 3, 1), 3);
    assert_eq!(row_len(6, 3, 2), 0);
    assert_eq!(row_len(0, 3, 0), 0);
}

#[test]
fn row_lengths_add_up_to_the_section() {
    let mut len: usize = 0;
    while len <= 40 {
        let mut per_row: usize = 0;
        while per_row <= 9 {
            let rows: usize = row_count(len, per_row);
            let width: usize = clamp_per_row(per_row);
            let mut total: usize = 0;
            let mut row: usize = 0;
            while row < rows {
                let columns: usize = row_len(len, per_row, row);
                assert!(columns >= 1);
                assert!(columns <= width);
                if row + 1 < rows {
                    assert_eq!(columns, width);
                }
                total += columns;
                row += 1;
            }
            assert_eq!(total, len);
            assert_eq!(row_len(len, per_row, rows), 0);
            per_row += 1;
        }
        len += 1;
    }
}

#[test]
fn row_bounds_give_start_and_end() {
    assert_eq!(row_bounds(7, 3, 0), Some((0, 3)));
    assert_eq!(row_bounds(7, 3, 1), Some((3, 6)));
    assert_eq!(row_bounds(7, 3, 2), Some((6, 7)));
    assert_eq!(row_bounds(7, 3, 3), None);
    assert_eq!(row_bounds(0, 3, 0), None);
    assert_eq!(row_bounds(2, 0, 1), Some((1, 2)));
}
