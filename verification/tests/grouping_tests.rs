use emoji_picker::catalog::{all_refs, Entry, Group, GROUP_COUNT};
use emoji_picker::grid::{
    entry_at, get_emoji_at_index, index_path_to_emoji_index, lens_of, row_entries,
};
use emoji_picker::grouping::{entries_in_group, group_entries, grouped_emojis, Section};
use emoji_picker::layout::row_count;
use emoji_picker::navigation::IndexPath;

fn plain(name: &str, group: Group) -> Entry {
    Entry { glyph: format!("<{}>", name), name: String::from(name), group, tones: Vec::new() }
}

fn mixed() -> Vec<Entry> {
    vec![
        plain("flag one", Group::Flags),
        plain("smile one", Group::SmileysAndEmotion),
        plain("cat", Group::AnimalsAndNature),
        plain("smile two", Group::SmileysAndEmotion),
        plain("flag two", Group::Flags),
        plain("dog", Group::AnimalsAndNature),
        plain("smile three", Group::SmileysAndEmotion),
    ]
}

fn names(entries: &Vec<&Entry>) -> Vec<String> {
    entries.iter().map(|entry| entry.name.clone()).collect()
}

fn path(section: usize, row: usize, column: usize) -> IndexPath {
    IndexPath { section, row, column }
}

#[test]
fn entries_in_group_keeps_the_order_of_the_list() {
    let catalog = mixed();
    let refs = all_refs(&catalog);
    assert_eq!(names(&entries_in_group(&refs, Group::SmileysAndEmotion)), vec!["smile one", "smile two", "smile three"]);
    assert_eq!(names(&entries_in_group(&refs, Group::Flags)), vec!["flag one", "flag two"]);
    assert!(entries_in_group(&refs, Group::Objects).is_empty());
}

#[test]
fn group_entries_orders_sections_canonically() {
    let catalog = mixed();
    let refs = all_refs(&catalog);
    let sections = group_entries(&refs);
    assert_eq!(sections.len(), 3);
    assert_eq!(sections[0].group, Group::SmileysAndEmotion);
    assert_eq!(sections[1].group, Group::AnimalsAndNature);
    assert_eq!(sections[2].group, Group::Flags);
    assert_eq!(names(&sections[0].entries), vec!["smile one", "smile two", "smile three"]);
    assert_eq!(names(&sections[1].entries), vec!["cat", "dog"]);
    assert_eq!(names(&sections[2].entries), vec!["flag one", "flag two"]);
}

#[test]
fn group_entries_of_nothing_gives_no_section() {
    let refs: Vec<&Entry> = Vec::new();
    assert!(group_entries(&refs).is_empty());
}

#[test]
fn group_entries_loses_and_repeats_nothing() {
    let catalog = mixed();
    let refs = all_refs(&catalog);
    let sections = group_entries(&refs);
    let mut seen: Vec<String> = Vec::new();
    let mut last_rank: Option<usize> = None;
    for section in sections.iter() {
        assert!(!section.entries.is_empty());
        let rank: usize = section.group.index();
        assert!(rank < GROUP_COUNT);
        if let Some(before) = last_rank {
            assert!(before < rank);
        }
        last_rank = Some(rank);
        for entry in section.entries.iter() {
            assert_eq!(entry.group, section.group);
            seen.push(entry.name.clone());
        }
    }
    let mut expected: Vec<String> = names(&refs);
    expected.sort();
    seen.sort();
    assert_eq!(seen, expected);
}

#[test]
fn group_entries_keeps_repeated_entries() {
    let catalog = vec![plain("cat", Group::AnimalsAndNature)];
    let refs: Vec<&Entry> = vec![&catalog[0], &catalog[0]];
    let sections = group_entries(&refs);
    assert_eq!(sections.len(), 1);
    assert_eq!(sections[0].entries.len(), 2);
}

#[test]
fn three_groups_with_one_empty_give_two_sections() {
    let catalog = vec![
        plain("e1", Group::SmileysAndEmotion),
        plain("e2", Group::SmileysAndEmotion),
        plain("e3", Group::SmileysAndEmotion),
        plain("e4", Group::PeopleAndBody),
    ];
    let refs = all_refs(&catalog);
    let sections = group_entries(&refs);
    assert_eq!(sections.len(), 2);
    assert_eq!(sections[0].group, Group::SmileysAndEmotion);
    assert_eq!(names(&sections[0].entries), vec!["e1", "e2", "e3"]);
    assert_eq!(sections[1].group, Group::PeopleAndBody);
    assert_eq!(names(&sections[1].entries), vec!["e4"]);
    assert_eq!(lens_of(&sections), vec![3, 1]);
}

#[test]
fn lens_of_lists_the_section_lengths() {
    let catalog = mixed();
    let refs = all_refs(&catalog);
    let sections = group_entries(&refs);
    assert_eq!(lens_of(&sections), vec![3, 2, 2]);
    let none: Vec<Section> = Vec::new();
    assert!(lens_of(&none).is_empty());
}

#[test]
fn entry_at_finds_the_entry_under_a_path() {
    let catalog = mixed();
    let refs = all_refs(&catalog);
    let sections = group_entries(&refs);
    assert_eq!(entry_at(&sections, 2, path(0, 0, 0)).map(|e| e.name.as_str()), Some("smile one"));
    assert_eq!(entry_at(&sections, 2, path(0, 0, 1)).map(|e| e.name.as_str()), Some("smile two"));
    assert_eq!(entry_at(&sections, 2, path(0, 1, 0)).map(|e| e.name.as_str()), Some("smile three"));
    assert_eq!(entry_at(&sections, 2, path(1, 0, 1)).map(|e| e.name.as_str()), Some("dog"));
    assert_eq!(entry_at(&sections, 2, path(2, 0, 0)).map(|e| e.name.as_str()), Some("flag one"));
    assert_eq!(entry_at(&sections, 0, path(0, 2, 0)).map(|e| e.name.as_str()), Some("smile three"));
}

#[test]
fn entry_at_outside_the_grid_is_none() {
    let catalog = mixed();
    let refs = all_refs(&catalog);
    let sections = group_entries(&refs);
    assert!(entry_at(&sections, 2, path(0, 1, 1)).is_none());
    assert!(entry_at(&sections, 2, path(0, 0, 2)).is_none());
    assert!(entry_at(&sections, 2, path(0, 2, 0)).is_none());
    assert!(entry_at(&sections, 2, path(3, 0, 0)).is_none());
    assert!(entry_at(&sections, 2, path(usize::MAX, usize::MAX, usize::MAX)).is_none());
}

#[test]
fn row_entries_slices_a_section() {
    let catalog = mixed();
    let refs = all_refs(&catalog);
    let sections = group_entries(&refs);
    assert_eq!(row_entries(&sections[0], 2, 0).map(|row| names(&row)), Some(vec![String::from("smile one"), String::from("smile two")]));
    assert_eq!(row_entries(&sections[0], 2, 1).map(|row| names(&row)), Some(vec![String::from("smile three")]));
    assert!(row_entries(&sections[0], 2, 2).is_none());
    assert_eq!(row_entries(&sections[0], 5, 0).map(|row| row.len()), Some(3));
}

#[test]
fn rows_of_a_section_join_to_the_section() {
    let catalog = mixed();
    let refs = all_refs(&catalog);
    let section = Section { group: Group::Objects, entries: refs };
    let mut per_row: usize = 0;
    while per_row <= 8 {
        let rows: usize = row_count(section.entries.len(), per_row);
        let mut joined: Vec<String> = Vec::new();
        let mut row: usize = 0;
        while row < rows {
            match row_entries(&section, per_row, row) {
                Some(found) => joined.extend(names(&found)),
                None => panic!("a row of the section is missing"),
            }
            row += 1;
        }
        assert_eq!(joined, names(&section.entries));
        assert!(row_entries(&section, per_row, rows).is_none());
        per_row += 1;
    }
}

#[test]
fn index_path_to_emoji_index_counts_through_the_sections() {
    let lens: Vec<usize> = vec![3, 2, 2];
    assert_eq!(index_path_to_emoji_index(&lens, 2, path(0, 0, 0)), Some(0));
    assert_eq!(index_path_to_emoji_index(&lens, 2, path(0, 1, 0)), Some(2));
    assert_eq!(index_path_to_emoji_index(&lens, 2, path(1, 0, 0)), Some(3));
    assert_eq!(index_path_to_emoji_index(&lens, 2, path(1, 0, 1)), Some(4));
    assert_eq!(index_path_to_emoji_index(&lens, 2, path(2, 0, 1)), Some(6));
    assert_eq!(index_path_to_emoji_index(&lens, 2, path(0, 1, 1)), None);
    assert_eq!(index_path_to_emoji_index(&lens, 2, path(3, 0, 0)), None);
}

#[test]
fn index_path_to_emoji_index_is_none_where_the_place_is_too_large() {
    let lens: Vec<usize> = vec![usize::MAX, 2];
    assert_eq!(index_path_to_emoji_index(&lens, 2, path(1, 0, 0)), Some(usize::MAX));
    assert_eq!(index_path_to_emoji_index(&lens, 2, path(1, 0, 1)), None);
    assert_eq!(index_path_to_emoji_index(&lens, 2, path(0, 0, 1)), Some(1));
}

#[test]
fn get_emoji_at_index_walks_the_sections_in_order() {
    let catalog = mixed();
    let refs = all_refs(&catalog);
    let sections = group_entries(&refs);
    let expected = vec!["smile one", "smile two", "smile three", "cat", "dog", "flag one", "flag two"];
    let mut index: usize = 0;
    while index < expected.len() {
        assert_eq!(get_emoji_at_index(&sections, index).map(|e| e.name.as_str()), Some(expected[index]));
        index += 1;
    }
    assert!(get_emoji_at_index(&sections, 7).is_none());
    assert!(get_emoji_at_index(&sections, usize::MAX).is_none());
}

#[test]
fn a_path_and_its_place_name_the_same_entry() {
    let catalog = mixed();
    let refs = all_refs(&catalog);
    let sections = group_entries(&refs);
    let lens = lens_of(&sections);
    let mut section: usize = 0;
    while section < 4 {
        let mut row: usize = 0;
        while row < 4 {
            let mut column: usize = 0;
            while column < 4 {
                let at = path(section, row, column);
                let by_path = entry_at(&sections, 2, at).map(|e| e.name.clone());
                let by_place = match index_path_to_emoji_index(&lens, 2, at) {
                    Some(place) => get_emoji_at_index(&sections, place).map(|e| e.name.clone()),
                    None => None,
                };
                assert_eq!(by_path, by_place);
                column += 1;
            }
            row += 1;
        }
        section += 1;
    }
}

#[test]
fn grouped_emojis_groups_a_whole_catalog() {
    let catalog = mixed();
    let sections = grouped_emojis(&catalog);
    assert_eq!(sections.len(), 3);
    assert_eq!(names(&sections[0].entries), vec!["smile one", "smile two", "smile three"]);
    assert_eq!(names(&sections[1].entries), vec!["cat", "dog"]);
    assert_eq!(names(&sections[2].entries), vec!["flag one", "flag two"]);
    assert!(grouped_emojis(&Vec::new()).is_empty());
}
