//! The grid that sections make: finding the entry under a path, the entries
//! of a row, and the place of a cell among all entries.

use vstd::prelude::*;

use crate::catalog::Entry;
use crate::grouping::{joined, section_view, sections_view, Section};
use crate::layout::{clamp_per_row, lemma_row_range, row_bounds, row_len, row_of, rows_in, width};
use crate::navigation::{is_valid_path, lemma_valid_path_offset, valid_path, IndexPath};

verus! {

/// The length of each section.
pub open spec fn section_lens<'a>(sections: Seq<Section<'a>>) -> Seq<usize> {
    sections.map_values(|section: Section<'a>| section.entries.len())
}

/// The offset of a cell in its section.
pub open spec fn offset_of(per_row: nat, path: IndexPath) -> int {
    path.row * width(per_row) + path.column
}

/// The entry under `path`, where `path` points at a cell of the grid.
pub open spec fn cell<'a>(sections: Seq<Section<'a>>, per_row: nat, path: IndexPath) -> Option<
    &'a Entry,
> {
    if valid_path(section_lens(sections), per_row, path) {
        Some(sections[path.section as int].entries@[offset_of(per_row, path)])
    } else {
        None
    }
}

/// Number of entries in the sections before `section`.
pub open spec fn entries_before(lens: Seq<usize>, section: int) -> int
    decreases section,
{
    if section <= 0 {
        0
    } else {
        entries_before(lens, section - 1) + lens[section - 1]
    }
}

/// The place of a cell among all entries of the grid, counted from 0 through
/// the sections in order.
pub open spec fn flat_position(lens: Seq<usize>, per_row: nat, path: IndexPath) -> int {
    entries_before(lens, path.section as int) + offset_of(per_row, path)
}

/// The joined entries of the first `count` sections are as many as their
/// lengths add up to, and begin the joined entries of all sections.
pub proof fn lemma_joined_prefix<'a>(sections: Seq<Section<'a>>, count: int)
    requires
        0 <= count <= sections.len(),
    ensures
        joined(sections_view(sections.take(count))).len() == entries_before(
            section_lens(sections),
            count,
        ),
        joined(sections_view(sections.take(count))).len() <= joined(sections_view(sections)).len(),
        joined(sections_view(sections.take(count))) == joined(sections_view(sections)).take(
            entries_before(section_lens(sections), count),
        ),
    decreases sections.len() - count,
{
    let all = sections_view(sections);
    let part = sections_view(sections.take(count));
    lemma_entries_before(sections, count);
    if count == sections.len() {
        assert(sections.take(count) =~= sections);
        assert(joined(all).take(joined(all).len() as int) =~= joined(all));
    } else {
        let more = sections_view(sections.take(count + 1));
        lemma_joined_prefix(sections, count + 1);
        lemma_entries_before(sections, count + 1);
        assert(more.drop_last() =~= part);
        assert(more.last() == section_view(sections[count]));
        assert(joined(more) == joined(part) + sections[count].entries@);
        assert(joined(part) =~= joined(more).take(joined(part).len() as int));
        assert(joined(part) =~= joined(all).take(joined(part).len() as int));
    }
}

/// The joined entries of the first `count` sections are as many as the
/// lengths of those sections add up to.
pub proof fn lemma_entries_before<'a>(sections: Seq<Section<'a>>, count: int)
    requires
        0 <= count <= sections.len(),
    ensures
        joined(sections_view(sections.take(count))).len() == entries_before(
            section_lens(sections),
            count,
        ),
    decreases count,
{
    let part = sections_view(sections.take(count));
    if count > 0 {
        lemma_entries_before(sections, count - 1);
        assert(part.drop_last() =~= sections_view(sections.take(count - 1)));
        assert(part.last() == section_view(sections[count - 1]));
    }
}

/// The entry under a path is the entry at the path's place among all entries.
pub proof fn lemma_cell_at_flat_position<'a>(
    sections: Seq<Section<'a>>,
    per_row: nat,
    path: IndexPath,
)
    requires
        valid_path(section_lens(sections), per_row, path),
    ensures
        0 <= flat_position(section_lens(sections), per_row, path) < joined(
            sections_view(sections),
        ).len(),
        cell(sections, per_row, path) == Some(
            joined(sections_view(sections))[flat_position(section_lens(sections), per_row, path)],
        ),
{
    let lens = section_lens(sections);
    let section = path.section as int;
    lemma_valid_path_offset(lens, per_row, path);
    lemma_joined_prefix(sections, section);
    lemma_joined_prefix(sections, section + 1);
    let upto = sections_view(sections.take(section + 1));
    assert(upto.drop_last() =~= sections_view(sections.take(section)));
    assert(upto.last() == section_view(sections[section]));
    let place = flat_position(lens, per_row, path);
    assert(joined(upto)[place] == sections[section].entries@[offset_of(per_row, path)]);
    assert(joined(sections_view(sections)).take(joined(upto).len() as int)[place] == joined(
        sections_view(sections),
    )[place]);
}

/// The length of each section.
pub fn lens_of<'a>(sections: &Vec<Section<'a>>) -> (lens: Vec<usize>)
    ensures
        lens@ == section_lens(sections@),
{
    let mut lens: Vec<usize> = Vec::new();
    let mut i: usize = 0;
    while i < sections.len()
        invariant
            i <= sections.len(),
            lens@ =~= section_lens(sections@.take(i as int)),
        decreases sections.len() - i,
    {
        lens.push(sections[i].entries.len());
        i += 1;
    }
    assert(sections@.take(i as int) =~= sections@);
    lens
}

/// The entry under `path`; `None` where `path` points at no cell of the grid.
pub fn entry_at<'a>(sections: &Vec<Section<'a>>, per_row: usize, path: IndexPath) -> (entry: Option<
    &'a Entry,
>)
    ensures
        entry == cell(sections@, per_row as nat, path),
{
    proof {
        lemma_valid_path_offset(section_lens(sections@), per_row as nat, path);
    }
    if path.section >= sections.len() {
        return None;
    }
    let entries: &Vec<&'a Entry> = &sections[path.section].entries;
    let len: usize = entries.len();
    proof {
        lemma_row_range(len as nat, per_row as nat, path.row as nat);
    }
    if path.column < row_len(len, per_row, path.row) {
        let w: usize = clamp_per_row(per_row);
        Some(entries[path.row * w + path.column])
    } else {
        None
    }
}

/// The entries of row `row` of a section; `None` where the section has no
/// such row.
pub fn row_entries<'a>(section: &Section<'a>, per_row: usize, row: usize) -> (entries: Option<
    Vec<&'a Entry>,
>)
    ensures
        entries.is_some() <==> row < rows_in(section.entries@.len(), per_row as nat),
        entries matches Some(found) ==> found@ == row_of(
            section.entries@,
            per_row as nat,
            row as nat,
        ),
{
    match row_bounds(section.entries.len(), per_row, row) {
        None => None,
        Some((start, end)) => {
            let mut found: Vec<&'a Entry> = Vec::new();
            let mut i: usize = start;
            while i < end
                invariant
                    start <= i <= end <= section.entries@.len(),
                    found@ =~= section.entries@.subrange(start as int, i as int),
                decreases end - i,
            {
                found.push(section.entries[i]);
                i += 1;
            }
            Some(found)
        },
    }
}

/// The place of a cell among all entries of the grid; `None` where `path`
/// points at no cell of the grid, or the place is too large a number.
pub fn index_path_to_emoji_index(lens: &Vec<usize>, per_row: usize, path: IndexPath) -> (index:
    Option<usize>)
    ensures
        index.is_some() <==> valid_path(lens@, per_row as nat, path) && flat_position(
            lens@,
            per_row as nat,
            path,
        ) <= usize::MAX,
        index matches Some(place) ==> place == flat_position(lens@, per_row as nat, path),
{
    if !is_valid_path(lens, per_row, path) {
        return None;
    }
    proof {
        lemma_valid_path_offset(lens@, per_row as nat, path);
    }
    let w: usize = clamp_per_row(per_row);
    let mut place: usize = path.row * w + path.column;
    let mut i: usize = 0;
    while i < path.section
        invariant
            i <= path.section < lens@.len(),
            place == entries_before(lens@, i as int) + offset_of(per_row as nat, path),
        decreases path.section - i,
    {
        match place.checked_add(lens[i]) {
            Some(sum) => {
                place = sum;
            },
            None => {
                proof {
                    lemma_entries_before_grows(lens@, i + 1, path.section as int);
                }
                return None;
            },
        }
        i += 1;
    }
    Some(place)
}

/// The number of entries before a section grows with the section.
pub proof fn lemma_entries_before_grows(lens: Seq<usize>, fewer: int, more: int)
    requires
        0 <= fewer <= more,
    ensures
        entries_before(lens, fewer) <= entries_before(lens, more),
    decreases more - fewer,
{
    if fewer < more {
        lemma_entries_before_grows(lens, fewer, more - 1);
    }
}

/// The entry at place `index` among all entries of the sections; `None` where
/// the sections hold no more than `index` entries.
pub fn get_emoji_at_index<'a>(sections: &Vec<Section<'a>>, index: usize) -> (entry: Option<
    &'a Entry,
>)
    ensures
        entry.is_some() <==> index < joined(sections_view(sections@)).len(),
        entry matches Some(found) ==> found == joined(sections_view(sections@))[index as int],
{
    let mut rest: usize = index;
    let mut i: usize = 0;
    while i < sections.len()
        invariant
            i <= sections.len(),
            rest + entries_before(section_lens(sections@), i as int) == index,
        decreases sections.len() - i,
    {
        let len: usize = sections[i].entries.len();
        proof {
            lemma_joined_prefix(sections@, i as int);
            lemma_joined_prefix(sections@, i + 1);
            let upto = sections_view(sections@.take(i + 1));
            assert(upto.drop_last() =~= sections_view(sections@.take(i as int)));
            assert(upto.last() == section_view(sections@[i as int]));
        }
        if rest < len {
            let found: &'a Entry = sections[i].entries[rest];
            proof {
                let upto = sections_view(sections@.take(i + 1));
                assert(joined(upto)[index as int] == found);
                assert(joined(sections_view(sections@)).take(joined(upto).len() as int)[index as int]
                    == joined(sections_view(sections@))[index as int]);
            }
            return Some(found);
        }
        rest -= len;
        i += 1;
    }
    proof {
        lemma_joined_prefix(sections@, sections@.len() as int);
        assert(sections@.take(sections@.len() as int) =~= sections@);
    }
    None
}

} // verus!
