//! The picker: the query, the sections it gives, the cursor and the
//! highlighted entry, and what each command does to them.
//!
//! The picker performs no side effect of its own. Each command changes the
//! state and tells the host what to do next: where to scroll, whether to open
//! the choice of tones, which glyph to insert before closing.

use vstd::prelude::*;

use crate::catalog::{all_refs, refs_of, Entry};
use crate::grid::{cell, entry_at, lens_of, row_entries, section_lens};
use crate::grouping::{group_entries, grouped, sections_view, Section};
use crate::layout::{row_count, row_of, rows_in};
use crate::navigation::{first_cell, first_path, move_cursor, step, valid_cursor, Direction, IndexPath};
use crate::search::{
    distinct_in, search_emojis, search_from, search_result, texts, visible, visible_entries, MAX_RESULTS,
};
use crate::tone::{resolve, resolved_glyph, rotated, Rotation, ToneIndex};

verus! {

/// What outlives one showing of the picker: the tone setting and the entry
/// that was confirmed last.
pub struct Session<'a> {
    pub tone: ToneIndex,
    pub last_selected: Option<&'a Entry>,
}

/// What the host does after a confirmation.
pub enum Confirmation<'a> {
    /// Nothing was selected: nothing to do.
    Nothing,
    /// Show the tones of this entry for choice; nothing is inserted yet.
    ChooseTone(&'a Entry),
    /// Insert this glyph into the focused application, then close the picker.
    Emit(&'a str),
}

/// What the host does after a cancellation.
#[derive(Clone, Copy, Debug, PartialEq, Eq, Structural)]
pub enum Cancellation {
    /// The choice of tones was open and is closed now; the picker stays.
    BackToGrid,
    /// Close the picker without inserting anything.
    Close,
}

/// A row as the list shows it: its entries, and whether it is the selected
/// item.
pub struct Row<'a> {
    pub emojis: Vec<&'a Entry>,
    pub selected: bool,
}

/// The state of the picker.
pub struct Picker<'a> {
    /// The catalog that is searched.
    pub catalog: &'a Vec<Entry>,
    /// The query that gave the current results.
    pub query: String,
    /// What the search returned for the query.
    pub results: Vec<&'a Entry>,
    /// The results, split into sections.
    pub sections: Vec<Section<'a>>,
    /// Entries per row of the grid.
    pub emojis_per_row: usize,
    /// The cursor, if it is set.
    pub selected_index: Option<IndexPath>,
    /// The entry that is highlighted, if one is.
    pub highlighted: Option<&'a Entry>,
    /// Whether the choice of tones is open.
    pub tones_open: bool,
}

impl<'a> Session<'a> {
    /// A session with the first tone setting and nothing confirmed yet.
    pub fn new() -> (session: Session<'a>)
        ensures
            session.tone@ == 0,
            session.last_selected.is_none(),
    {
        Session { tone: ToneIndex::new(0), last_selected: None }
    }

    /// Turns the tone setting once, wrapping at either end.
    pub fn rotate_tones(&mut self, rotation: Rotation)
        ensures
            final(self).tone@ == rotated(old(self).tone@, rotation),
            final(self).last_selected == old(self).last_selected,
    {
        self.tone.rotate(rotation);
    }
}

impl<'a> Picker<'a> {
    /// Whether the sections are those of the results.
    pub open spec fn wf(&self) -> bool {
        sections_view(self.sections@) == grouped(self.results@)
    }

    /// The lengths of the sections.
    pub open spec fn lens(&self) -> Seq<usize> {
        section_lens(self.sections@)
    }

    /// The entry under the cursor, if the cursor points at one.
    pub open spec fn under_cursor(&self) -> Option<&'a Entry> {
        match self.selected_index {
            Some(path) => cell(self.sections@, self.emojis_per_row as nat, path),
            None => None,
        }
    }

    /// The entry that a confirmation is about: the highlighted entry, or the
    /// entry under the cursor where none is highlighted.
    pub open spec fn chosen(&self) -> Option<&'a Entry> {
        match self.highlighted {
            Some(entry) => Some(entry),
            None => self.under_cursor(),
        }
    }

    /// The state after a search for `query` that found `results`: the sections
    /// of the results, the cursor on the first cell if there is one, nothing
    /// highlighted, the choice of tones closed.
    pub open spec fn shows(&self, query: Seq<char>, results: Seq<&'a Entry>) -> bool {
        &&& self.query@ == query
        &&& self.results@ == results
        &&& self.wf()
        &&& self.selected_index == first_cell(self.lens())
        &&& self.highlighted.is_none()
        &&& !self.tones_open
    }

    /// A picker over `catalog` that shows the whole catalog, with no cursor.
    pub fn new(catalog: &'a Vec<Entry>, emojis_per_row: usize) -> (picker: Picker<'a>)
        ensures
            picker.catalog == catalog,
            picker.emojis_per_row == emojis_per_row,
            picker.query@.len() == 0,
            picker.results@ == visible(refs_of::<'a>(catalog@)),
            picker.wf(),
            picker.selected_index.is_none(),
            picker.highlighted.is_none(),
            !picker.tones_open,
    {
        let entries: Vec<&'a Entry> = all_refs(catalog);
        let results: Vec<&'a Entry> = visible_entries(&entries);
        let sections: Vec<Section<'a>> = group_entries(&results);
        Picker {
            catalog,
            query: String::new(),
            results,
            sections,
            emojis_per_row,
            selected_index: None,
            highlighted: None,
            tones_open: false,
        }
    }

    /// Number of sections.
    pub fn sections_count(&self) -> (count: usize)
        ensures
            count == self.sections@.len(),
    {
        self.sections.len()
    }

    /// Number of rows of section `section`; 0 where there is no such section.
    pub fn items_count(&self, section: usize) -> (rows: usize)
        ensures
            section < self.sections@.len() ==> rows == rows_in(
                self.sections@[section as int].entries@.len(),
                self.emojis_per_row as nat,
            ),
            section >= self.sections@.len() ==> rows == 0,
    {
        if section >= self.sections.len() {
            0
        } else {
            row_count(self.sections[section].entries.len(), self.emojis_per_row)
        }
    }

    /// The entries of row `row` of section `section`; `None` where there is
    /// no such section or row.
    pub fn row_at(&self, section: usize, row: usize) -> (entries: Option<Vec<&'a Entry>>)
        ensures
            entries.is_some() <==> section < self.sections@.len() && row < rows_in(
                self.sections@[section as int].entries@.len(),
                self.emojis_per_row as nat,
            ),
            entries matches Some(found) ==> found@ == row_of(
                self.sections@[section as int].entries@,
                self.emojis_per_row as nat,
                row as nat,
            ),
    {
        if section >= self.sections.len() {
            None
        } else {
            row_entries(&self.sections[section], self.emojis_per_row, row)
        }
    }

    /// Whether `path` is where the cursor is.
    pub fn is_selected(&self, path: IndexPath) -> (selected: bool)
        ensures
            selected == (self.selected_index == Some(path)),
    {
        match self.selected_index {
            Some(cursor) => cursor.section == path.section && cursor.row == path.row
                && cursor.column == path.column,
            None => false,
        }
    }

    /// The column of the cursor, if the cursor is in row `row` of section
    /// `section`.
    pub fn cursor_column(&self, section: usize, row: usize) -> (column: Option<usize>)
        ensures
            column == match self.selected_index {
                Some(cursor) => if cursor.section == section && cursor.row == row {
                    Some(cursor.column)
                } else {
                    None
                },
                None => None,
            },
    {
        match self.selected_index {
            Some(cursor) => if cursor.section == section && cursor.row == row {
                Some(cursor.column)
            } else {
                None
            },
            None => None,
        }
    }

    /// The item that the list shows for `ix`: the entries of row `ix.row` of
    /// section `ix.section`, selected exactly when `ix` is where the cursor
    /// is; `None` where there is no such section or row. The picker stays as
    /// it is.
    pub fn render_item(&self, ix: IndexPath) -> (item: Option<Row<'a>>)
        ensures
            item.is_some() <==> ix.section < self.sections@.len() && ix.row < rows_in(
                self.sections@[ix.section as int].entries@.len(),
                self.emojis_per_row as nat,
            ),
            item matches Some(row) ==> {
                &&& row.emojis@ == row_of(
                    self.sections@[ix.section as int].entries@,
                    self.emojis_per_row as nat,
                    ix.row as nat,
                )
                &&& row.selected == (self.selected_index == Some(ix))
            },
    {
        match self.row_at(ix.section, ix.row) {
            Some(emojis) => Some(Row { emojis, selected: self.is_selected(ix) }),
            None => None,
        }
    }

    /// The entry under `path`; `None` where `path` points at no cell.
    pub fn entry_at(&self, path: IndexPath) -> (entry: Option<&'a Entry>)
        ensures
            entry == cell(self.sections@, self.emojis_per_row as nat, path),
    {
        entry_at(&self.sections, self.emojis_per_row, path)
    }

    /// The entry under the cursor, if the cursor points at one.
    pub fn entry_under_cursor(&self) -> (entry: Option<&'a Entry>)
        ensures
            entry == self.under_cursor(),
    {
        match self.selected_index {
            Some(path) => self.entry_at(path),
            None => None,
        }
    }

    /// Takes a new query, given what the matcher found for it (`None` where
    /// the matcher was not to be had): the results and sections are replaced,
    /// the cursor goes to the first cell if there is one, nothing is
    /// highlighted any more and the choice of tones is closed.
    pub fn update_search_from(&mut self, query: &str, ranking: Option<&Vec<String>>)
        ensures
            final(self).shows(
                query@,
                search_result::<'a>(
                    old(self).catalog@,
                    query@,
                    match ranking {
                        Some(names) => Some(texts(names@)),
                        None => None,
                    },
                ),
            ),
            final(self).catalog == old(self).catalog,
            final(self).emojis_per_row == old(self).emojis_per_row,
            valid_cursor(
                final(self).lens(),
                final(self).emojis_per_row as nat,
                final(self).selected_index,
            ),
    {
        let results: Vec<&'a Entry> = search_from(self.catalog, query, ranking);
        self.install(query, results);
    }

    /// Takes a new query and searches the catalog for it: the results and
    /// sections are replaced, the cursor goes to the first cell if there is
    /// one, nothing is highlighted any more and the choice of tones is closed.
    pub fn update_search(&mut self, query: &str)
        ensures
            exists|ranking: Seq<Seq<char>>|
                final(self).shows(
                    query@,
                    #[trigger] search_result::<'a>(old(self).catalog@, query@, Some(ranking)),
                ),
            query@.len() == 0 ==> final(self).results@ == visible(
                refs_of::<'a>(old(self).catalog@),
            ),
            query@.len() > 0 ==> final(self).results@.len() <= MAX_RESULTS && distinct_in(
                old(self).catalog@,
                final(self).results@,
            ),
            final(self).catalog == old(self).catalog,
            final(self).emojis_per_row == old(self).emojis_per_row,
            valid_cursor(
                final(self).lens(),
                final(self).emojis_per_row as nat,
                final(self).selected_index,
            ),
    {
        let results: Vec<&'a Entry> = search_emojis(self.catalog, query);
        self.install(query, results);
    }

    /// Replaces the query and the results, and resets what depends on them.
    fn install(&mut self, query: &str, results: Vec<&'a Entry>)
        ensures
            final(self).shows(query@, results@),
            final(self).catalog == old(self).catalog,
            final(self).emojis_per_row == old(self).emojis_per_row,
            valid_cursor(
                final(self).lens(),
                final(self).emojis_per_row as nat,
                final(self).selected_index,
            ),
    {
        let sections: Vec<Section<'a>> = group_entries(&results);
        let lens: Vec<usize> = lens_of(&sections);
        let first: Option<IndexPath> = first_path(&lens);
        proof {
            crate::navigation::lemma_step_valid(
                lens@,
                self.emojis_per_row as nat,
                None,
                Direction::Right,
            );
        }
        self.query = query.to_owned();
        self.results = results;
        self.sections = sections;
        self.selected_index = first;
        self.highlighted = None;
        self.tones_open = false;
    }

    /// Moves the cursor one cell in a direction and highlights the entry
    /// under it. Returns the new cursor, to which the host scrolls.
    pub fn move_selection(&mut self, direction: Direction) -> (cursor: Option<IndexPath>)
        ensures
            cursor == step(
                old(self).lens(),
                old(self).emojis_per_row as nat,
                old(self).selected_index,
                direction,
            ),
            valid_cursor(old(self).lens(), old(self).emojis_per_row as nat, cursor),
            final(self).selected_index == cursor,
            final(self).highlighted == final(self).under_cursor(),
            cursor.is_some() ==> final(self).highlighted.is_some(),
            final(self).catalog == old(self).catalog,
            final(self).query == old(self).query,
            final(self).results == old(self).results,
            final(self).sections == old(self).sections,
            final(self).emojis_per_row == old(self).emojis_per_row,
            final(self).tones_open == old(self).tones_open,
    {
        let lens: Vec<usize> = lens_of(&self.sections);
        let cursor: Option<IndexPath> = move_cursor(
            &lens,
            self.emojis_per_row,
            self.selected_index,
            direction,
        );
        self.selected_index = cursor;
        self.highlighted = self.entry_under_cursor();
        cursor
    }

    /// Puts the cursor on the first cell of section `section`, whether or not
    /// there is such a section, and highlights the entry under it, if any.
    /// Returns the section to which the host scrolls.
    pub fn jump_to_section(&mut self, section: usize) -> (target: usize)
        ensures
            target == section,
            final(self).selected_index == Some(IndexPath { section, row: 0, column: 0 }),
            final(self).highlighted == final(self).under_cursor(),
            final(self).catalog == old(self).catalog,
            final(self).query == old(self).query,
            final(self).results == old(self).results,
            final(self).sections == old(self).sections,
            final(self).emojis_per_row == old(self).emojis_per_row,
            final(self).tones_open == old(self).tones_open,
    {
        self.selected_index = Some(IndexPath { section, row: 0, column: 0 });
        self.highlighted = self.entry_under_cursor();
        section
    }

    /// Puts the cursor where another input than the keyboard wants it, or
    /// unsets it, and highlights the entry under it, if any.
    pub fn set_selected_index(&mut self, index: Option<IndexPath>)
        ensures
            final(self).selected_index == index,
            final(self).highlighted == final(self).under_cursor(),
            final(self).catalog == old(self).catalog,
            final(self).query == old(self).query,
            final(self).results == old(self).results,
            final(self).sections == old(self).sections,
            final(self).emojis_per_row == old(self).emojis_per_row,
            final(self).tones_open == old(self).tones_open,
    {
        self.selected_index = index;
        self.highlighted = self.entry_under_cursor();
    }

    /// Highlights the entry under `path` and returns the glyph that the tone
    /// setting selects for it. Where `path` points at no cell, nothing is
    /// highlighted and nothing returned. The cursor stays.
    pub fn select_at(&mut self, session: &Session<'a>, path: IndexPath) -> (glyph: Option<&'a str>)
        ensures
            final(self).highlighted == cell(
                old(self).sections@,
                old(self).emojis_per_row as nat,
                path,
            ),
            glyph.is_some() == final(self).highlighted.is_some(),
            glyph matches Some(text) ==> text@ == resolved_glyph(
                *final(self).highlighted->0,
                session.tone@,
            ),
            final(self).selected_index == old(self).selected_index,
            final(self).catalog == old(self).catalog,
            final(self).query == old(self).query,
            final(self).results == old(self).results,
            final(self).sections == old(self).sections,
            final(self).emojis_per_row == old(self).emojis_per_row,
            final(self).tones_open == old(self).tones_open,
    {
        let entry: Option<&'a Entry> = self.entry_at(path);
        self.highlighted = entry;
        match entry {
            Some(found) => Some(resolve(found, session.tone)),
            None => None,
        }
    }

    /// Confirms the chosen entry: the highlighted one, or the one under the
    /// cursor where none is highlighted. A secondary confirmation of an entry
    /// that has tones opens the choice of tones and inserts nothing. Any other
    /// confirmation hands out the glyph that the tone setting selects, for the
    /// host to insert before it closes the picker, and remembers the entry in
    /// the session. Where nothing is chosen, nothing happens.
    pub fn confirm(&mut self, session: &mut Session<'a>, secondary: bool) -> (outcome: Confirmation<
        'a,
    >)
        ensures
            match old(self).chosen() {
                None => {
                    &&& outcome is Nothing
                    &&& final(self).tones_open == old(self).tones_open
                    &&& final(session).last_selected == old(session).last_selected
                },
                Some(entry) => if secondary && entry.tones@.len() > 0 {
                    &&& outcome == Confirmation::ChooseTone(entry)
                    &&& final(self).tones_open
                    &&& final(session).last_selected == old(session).last_selected
                } else {
                    &&& outcome matches Confirmation::Emit(glyph)
                    &&& glyph@ == resolved_glyph(*entry, old(session).tone@)
                    &&& final(self).tones_open == old(self).tones_open
                    &&& final(session).last_selected == Some(entry)
                },
            },
            final(session).tone == old(session).tone,
            final(self).selected_index == old(self).selected_index,
            final(self).highlighted == old(self).highlighted,
            final(self).catalog == old(self).catalog,
            final(self).query == old(self).query,
            final(self).results == old(self).results,
            final(self).sections == old(self).sections,
            final(self).emojis_per_row == old(self).emojis_per_row,
    {
        let chosen: Option<&'a Entry> = match self.highlighted {
            Some(entry) => Some(entry),
            None => self.entry_under_cursor(),
        };
        match chosen {
            None => Confirmation::Nothing,
            Some(entry) => {
                if secondary && entry.tones.len() > 0 {
                    self.tones_open = true;
                    Confirmation::ChooseTone(entry)
                } else {
                    session.last_selected = Some(entry);
                    Confirmation::Emit(resolve(entry, session.tone))
                }
            },
        }
    }

    /// Cancels: closes the choice of tones where it is open, and the picker
    /// where it is not. Closing the picker clears the highlight. Nothing is
    /// inserted either way.
    pub fn cancel(&mut self) -> (outcome: Cancellation)
        ensures
            old(self).tones_open ==> outcome == Cancellation::BackToGrid && final(self).highlighted
                == old(self).highlighted,
            !old(self).tones_open ==> outcome == Cancellation::Close
                && final(self).highlighted.is_none(),
            !final(self).tones_open,
            final(self).selected_index == old(self).selected_index,
            final(self).catalog == old(self).catalog,
            final(self).query == old(self).query,
            final(self).results == old(self).results,
            final(self).sections == old(self).sections,
            final(self).emojis_per_row == old(self).emojis_per_row,
    {
        if self.tones_open {
            self.tones_open = false;
            Cancellation::BackToGrid
        } else {
            self.highlighted = None;
            Cancellation::Close
        }
    }
}

} // verus!
