use emoji_picker::navigation::{
    first_path, is_valid_path, move_cursor, move_down, move_left, move_right, move_up, Direction,
    IndexPath,
};

fn at(section: usize, row: usize, column: usize) -> Option<IndexPath> {
    Some(IndexPath { section, row, column })
}

fn all_paths(lens: &Vec<usize>, per_row: usize) -> Vec<IndexPath> {
    let mut paths: Vec<IndexPath> = Vec::new();
    let mut section: usize = 0;
    while section < lens.len() + 1 {
        let mut row: usize = 0;
        while row < 16 {
            let mut column: usize = 0;
            while column < 8 {
                let path = IndexPath { section, row, column };
                if is_valid_path(lens, per_row, path) {
                    paths.push(path);
                }
                column += 1;
            }
            row += 1;
        }
        section += 1;
    }
    paths
}

#[test]
fn valid_paths_lie_inside_the_grid() {
    let lens: Vec<usize> = vec![3, 1];
    assert!(is_valid_path(&lens, 2, IndexPath { section: 0, row: 0, column: 0 }));
    assert!(is_valid_path(&lens, 2, IndexPath { section: 0, row: 0, column: 1 }));
    assert!(is_valid_path(&lens, 2, IndexPath { section: 0, row: 1, column: 0 }));
    assert!(!is_valid_path(&lens, 2, IndexPath { section: 0, row: 1, column: 1 }));
    assert!(!is_valid_path(&lens, 2, IndexPath { section: 0, row: 0, column: 2 }));
    assert!(!is_valid_path(&lens, 2, IndexPath { section: 0, row: 2, column: 0 }));
    assert!(is_valid_path(&lens, 2, IndexPath { section: 1, row: 0, column: 0 }));
    assert!(!is_valid_path(&lens, 2, IndexPath { section: 1, row: 0, column: 1 }));
    assert!(!is_valid_path(&lens, 2, IndexPath { section: 2, row: 0, column: 0 }));
    assert!(!is_valid_path(&lens, 2, IndexPath { section: usize::MAX, row: usize::MAX, column: usize::MAX }));
}

#[test]
fn the_number_of_valid_paths_is_the_number_of_entries() {
    let lens: Vec<usize> = vec![5, 0, 7, 1];
    assert_eq!(all_paths(&lens, 3).len(), 13);
    assert_eq!(all_paths(&lens, 0).len(), 13);
}

#[test]
fn first_path_needs_a_first_section_with_entries() {
    assert_eq!(first_path(&vec![3, 1]), at(0, 0, 0));
    assert_eq!(first_path(&Vec::new()), None);
    assert_eq!(first_path(&vec![0, 4]), None);
}

#[test]
fn move_right_walks_through_rows_and_sections() {
    let lens: Vec<usize> = vec![3, 1];
    let mut cursor: Option<IndexPath> = None;
    cursor = move_right(&lens, 2, cursor);
    assert_eq!(cursor, at(0, 0, 0));
    cursor = move_right(&lens, 2, cursor);
    assert_eq!(cursor, at(0, 0, 1));
    cursor = move_right(&lens, 2, cursor);
    assert_eq!(cursor, at(0, 1, 0));
    cursor = move_right(&lens, 2, cursor);
    assert_eq!(cursor, at(1, 0, 0));
    cursor = move_right(&lens, 2, cursor);
    assert_eq!(cursor, at(1, 0, 0));
}

#[test]
fn move_left_is_the_mirror_of_move_right() {
    let lens: Vec<usize> = vec![3, 1];
    let mut cursor: Option<IndexPath> = at(1, 0, 0);
    cursor = move_left(&lens, 2, cursor);
    assert_eq!(cursor, at(0, 1, 0));
    cursor = move_left(&lens, 2, cursor);
    assert_eq!(cursor, at(0, 0, 1));
    cursor = move_left(&lens, 2, cursor);
    assert_eq!(cursor, at(0, 0, 0));
    cursor = move_left(&lens, 2, cursor);
    assert_eq!(cursor, at(0, 0, 0));
}

#[test]
fn move_left_enters_the_last_cell_of_the_previous_section() {
    let lens: Vec<usize> = vec![7, 4];
    assert_eq!(move_left(&lens, 3, at(1, 0, 0)), at(0, 2, 0));
    let full: Vec<usize> = vec![6, 4];
    assert_eq!(move_left(&full, 3, at(1, 0, 0)), at(0, 1, 2));
}

#[test]
fn moves_from_no_cursor_go_to_the_first_cell() {
    let lens: Vec<usize> = vec![3, 1];
    assert_eq!(move_right(&lens, 2, None), at(0, 0, 0));
    assert_eq!(move_left(&lens, 2, None), at(0, 0, 0));
    assert_eq!(move_down(&lens, 2, None), at(0, 0, 0));
    assert_eq!(move_up(&lens, 2, None), at(0, 0, 0));
}

#[test]
fn moves_over_no_sections_leave_the_cursor_unset() {
    let lens: Vec<usize> = Vec::new();
    assert_eq!(move_right(&lens, 2, None), None);
    assert_eq!(move_left(&lens, 2, None), None);
    assert_eq!(move_down(&lens, 2, None), None);
    assert_eq!(move_up(&lens, 2, None), None);
    assert_eq!(move_right(&lens, 2, at(0, 0, 0)), None);
}

#[test]
fn a_stale_cursor_is_reset_to_the_first_cell() {
    let lens: Vec<usize> = vec![3, 1];
    assert_eq!(move_right(&lens, 2, at(5, 0, 0)), at(0, 0, 0));
    assert_eq!(move_down(&lens, 2, at(0, 1, 1)), at(0, 0, 0));
    assert_eq!(move_up(&lens, 2, at(1, 3, 0)), at(0, 0, 0));
    assert_eq!(move_left(&lens, 2, at(0, 0, 2)), at(0, 0, 0));
}

#[test]
fn move_down_keeps_the_column_where_it_can() {
    let lens: Vec<usize> = vec![7];
    assert_eq!(move_down(&lens, 3, at(0, 0, 1)), at(0, 1, 1));
    assert_eq!(move_down(&lens, 3, at(0, 1, 0)), at(0, 2, 0));
}

#[test]
fn move_down_clamps_the_column_in_a_short_row() {
    let lens: Vec<usize> = vec![7];
    assert_eq!(move_down(&lens, 3, at(0, 1, 2)), at(0, 2, 0));
    assert_eq!(move_down(&lens, 3, at(0, 1, 1)), at(0, 2, 0));
    let longer: Vec<usize> = vec![12];
    assert_eq!(move_down(&longer, 5, at(0, 1, 3)), at(0, 2, 1));
}

#[test]
fn move_down_enters_the_next_section() {
    let lens: Vec<usize> = vec![3, 1, 5];
    assert_eq!(move_down(&lens, 3, at(0, 0, 2)), at(1, 0, 0));
    assert_eq!(move_down(&lens, 3, at(1, 0, 0)), at(2, 0, 0));
    assert_eq!(move_down(&lens, 3, at(0, 0, 0)), at(1, 0, 0));
    let wide: Vec<usize> = vec![3, 5];
    assert_eq!(move_down(&wide, 3, at(0, 0, 2)), at(1, 0, 2));
}

#[test]
fn move_down_stays_in_the_last_row_of_the_grid() {
    let lens: Vec<usize> = vec![3, 5];
    assert_eq!(move_down(&lens, 3, at(1, 1, 1)), at(1, 1, 1));
}

#[test]
fn move_up_keeps_the_column_inside_a_section() {
    let lens: Vec<usize> = vec![7];
    assert_eq!(move_up(&lens, 3, at(0, 2, 0)), at(0, 1, 0));
    assert_eq!(move_up(&lens, 3, at(0, 1, 2)), at(0, 0, 2));
    assert_eq!(move_up(&lens, 3, at(0, 0, 2)), at(0, 0, 2));
}

#[test]
fn move_up_enters_the_last_row_of_the_previous_section() {
    let lens: Vec<usize> = vec![7, 5];
    assert_eq!(move_up(&lens, 3, at(1, 0, 2)), at(0, 2, 0));
    assert_eq!(move_up(&lens, 3, at(1, 0, 0)), at(0, 2, 0));
    let full: Vec<usize> = vec![6, 5];
    assert_eq!(move_up(&full, 3, at(1, 0, 2)), at(0, 1, 2));
    assert_eq!(move_up(&full, 3, at(1, 0, 1)), at(0, 1, 1));
}

#[test]
fn moves_do_not_enter_a_section_without_entries() {
    let lens: Vec<usize> = vec![2, 0, 2];
    assert_eq!(move_right(&lens, 2, at(0, 0, 1)), at(0, 0, 1));
    assert_eq!(move_down(&lens, 2, at(0, 0, 1)), at(0, 0, 1));
    assert_eq!(move_left(&lens, 2, at(2, 0, 0)), at(2, 0, 0));
    assert_eq!(move_up(&lens, 2, at(2, 0, 0)), at(2, 0, 0));
}

#[test]
fn a_width_of_zero_moves_as_a_width_of_one() {
    let lens: Vec<usize> = vec![3];
    assert_eq!(move_right(&lens, 0, at(0, 0, 0)), at(0, 1, 0));
    assert_eq!(move_down(&lens, 0, at(0, 1, 0)), at(0, 2, 0));
    assert_eq!(move_left(&lens, 0, at(0, 2, 0)), at(0, 1, 0));
    assert_eq!(move_up(&lens, 0, at(0, 1, 0)), at(0, 0, 0));
}

#[test]
fn move_cursor_follows_the_direction() {
    let lens: Vec<usize> = vec![7, 4];
    let start: Option<IndexPath> = at(0, 1, 1);
    assert_eq!(move_cursor(&lens, 3, start, Direction::Up), move_up(&lens, 3, start));
    assert_eq!(move_cursor(&lens, 3, start, Direction::Down), move_down(&lens, 3, start));
    assert_eq!(move_cursor(&lens, 3, start, Direction::Left), move_left(&lens, 3, start));
    assert_eq!(move_cursor(&lens, 3, start, Direction::Right), move_right(&lens, 3, start));
    assert_eq!(move_cursor(&lens, 3, start, Direction::Up), at(0, 0, 1));
    assert_eq!(move_cursor(&lens, 3, start, Direction::Down), at(0, 2, 0));
    assert_eq!(move_cursor(&lens, 3, start, Direction::Left), at(0, 1, 0));
    assert_eq!(move_cursor(&lens, 3, start, Direction::Right), at(0, 1, 2));
}

#[test]
fn every_move_from_every_cell_stays_in_the_grid() {
    let grids: Vec<Vec<usize>> = vec![vec![3, 1], vec![7, 5, 12], vec![1], vec![4, 4, 4], vec![2, 0, 3]];
    let directions: Vec<Direction> = vec![Direction::Up, Direction::Down, Direction::Left, Direction::Right];
    for lens in grids.iter() {
        let mut per_row: usize = 0;
        while per_row <= 5 {
            for path in all_paths(lens, per_row).iter() {
                for direction in directions.iter() {
                    match move_cursor(lens, per_row, Some(*path), *direction) {
                        Some(next) => assert!(is_valid_path(lens, per_row, next)),
                        None => panic!("a move from a cell unset the cursor"),
                    }
                }
            }
            per_row += 1;
        }
    }
}

#[test]
fn a_long_walk_stays_in_the_grid() {
    let lens: Vec<usize> = vec![7, 5, 12, 1];
    let directions: Vec<Direction> = vec![Direction::Right, Direction::Down, Direction::Down, Direction::Left, Direction::Up, Direction::Right, Direction::Right, Direction::Down];
    let mut cursor: Option<IndexPath> = None;
    let mut turn: usize = 0;
    while turn < 200 {
        cursor = move_cursor(&lens, 4, cursor, directions[(turn * 7 + turn / 3) % directions.len()]);
        match cursor {
            Some(path) => assert!(is_valid_path(&lens, 4, path)),
            None => panic!("the walk unset the cursor"),
        }
        turn += 1;
    }
}

#[test]
fn left_undoes_every_right_that_moved() {
    let lens: Vec<usize> = vec![7, 5, 12];
    let mut per_row: usize = 1;
    while per_row <= 5 {
        for path in all_paths(&lens, per_row).iter() {
            let right: Option<IndexPath> = move_right(&lens, per_row, Some(*path));
            if right != Some(*path) {
                assert_eq!(move_left(&lens, per_row, right), Some(*path));
            }
        }
        per_row += 1;
    }
}

#[test]
fn up_undoes_every_down_that_kept_the_column() {
    let lens: Vec<usize> = vec![7, 5, 12];
    let mut per_row: usize = 1;
    while per_row <= 5 {
        for path in all_paths(&lens, per_row).iter() {
            match move_down(&lens, per_row, Some(*path)) {
                Some(down) => {
                    if down != *path && down.column == path.column {
                        assert_eq!(move_up(&lens, per_row, Some(down)), Some(*path));
                    }
                }
                None => panic!("a move from a cell unset the cursor"),
            }
        }
        per_row += 1;
    }
}

#[test]
fn right_then_left_returns_at_an_interior_cell() {
    let lens: Vec<usize> = vec![15];
    let start: Option<IndexPath> = at(0, 1, 2);
    let right: Option<IndexPath> = move_right(&lens, 5, start);
    assert_eq!(right, at(0, 1, 3));
    assert_eq!(move_left(&lens, 5, right), start);
}

#[test]
fn down_then_up_returns_at_an_interior_cell() {
    let lens: Vec<usize> = vec![15];
    let start: Option<IndexPath> = at(0, 1, 2);
    let down: Option<IndexPath> = move_down(&lens, 5, start);
    assert_eq!(down, at(0, 2, 2));
    assert_eq!(move_up(&lens, 5, down), start);
}

#[test]
fn down_then_up_loses_a_column_that_the_row_below_lacks() {
    let lens: Vec<usize> = vec![12];
    let start: Option<IndexPath> = at(0, 1, 3);
    let down: Option<IndexPath> = move_down(&lens, 5, start);
    assert_eq!(down, at(0, 2, 1));
    assert_eq!(move_up(&lens, 5, down), at(0, 1, 1));
}
