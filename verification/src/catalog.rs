//! The catalog: entries, their categories and their skin-tone variants.

use vstd::prelude::*;
use vstd::string::StringExecFns;

verus! {

/// Number of categories.
pub const GROUP_COUNT: usize = 10;

/// The category of an entry. The variants are declared in canonical order.
#[derive(Clone, Copy, Debug, PartialEq, Eq, Structural)]
pub enum Group {
    SmileysAndEmotion,
    PeopleAndBody,
    Component,
    AnimalsAndNature,
    FoodAndDrink,
    TravelAndPlaces,
    Activities,
    Objects,
    Symbols,
    Flags,
}

impl Group {
    /// Position of the category in canonical order.
    pub open spec fn rank(self) -> nat {
        match self {
            Group::SmileysAndEmotion => 0,
            Group::PeopleAndBody => 1,
            Group::Component => 2,
            Group::AnimalsAndNature => 3,
            Group::FoodAndDrink => 4,
            Group::TravelAndPlaces => 5,
            Group::Activities => 6,
            Group::Objects => 7,
            Group::Symbols => 8,
            Group::Flags => 9,
        }
    }

    /// The category at a given position of the canonical order.
    pub open spec fn at(rank: nat) -> Group {
        if rank == 0 {
            Group::SmileysAndEmotion
        } else if rank == 1 {
            Group::PeopleAndBody
        } else if rank == 2 {
            Group::Component
        } else if rank == 3 {
            Group::AnimalsAndNature
        } else if rank == 4 {
            Group::FoodAndDrink
        } else if rank == 5 {
            Group::TravelAndPlaces
        } else if rank == 6 {
            Group::Activities
        } else if rank == 7 {
            Group::Objects
        } else if rank == 8 {
            Group::Symbols
        } else {
            Group::Flags
        }
    }

    /// The name under which the category is shown.
    pub open spec fn label_text(self) -> Seq<char> {
        match self {
            Group::SmileysAndEmotion => "Smileys & Emotion"@,
            Group::PeopleAndBody => "People & Body"@,
            Group::Component => "Component"@,
            Group::AnimalsAndNature => "Animals & Nature"@,
            Group::FoodAndDrink => "Food & Drink"@,
            Group::TravelAndPlaces => "Travel & Places"@,
            Group::Activities => "Activities"@,
            Group::Objects => "Objects"@,
            Group::Symbols => "Symbols"@,
            Group::Flags => "Flags"@,
        }
    }

    /// The first category, in canonical order from position `from` on, that
    /// is shown under the name `label`.
    pub open spec fn labelled_from(label: Seq<char>, from: nat) -> Option<Group>
        decreases GROUP_COUNT - from,
    {
        if from >= GROUP_COUNT {
            None
        } else if Group::at(from).label_text() == label {
            Some(Group::at(from))
        } else {
            Group::labelled_from(label, from + 1)
        }
    }

    /// The category that is shown under the name `label`.
    pub open spec fn labelled(label: Seq<char>) -> Option<Group> {
        Group::labelled_from(label, 0)
    }

    /// The name under which the category is shown.
    pub fn label(self) -> (text: &'static str)
        ensures
            text@ == self.label_text(),
    {
        match self {
            Group::SmileysAndEmotion => "Smileys & Emotion",
            Group::PeopleAndBody => "People & Body",
            Group::Component => "Component",
            Group::AnimalsAndNature => "Animals & Nature",
            Group::FoodAndDrink => "Food & Drink",
            Group::TravelAndPlaces => "Travel & Places",
            Group::Activities => "Activities",
            Group::Objects => "Objects",
            Group::Symbols => "Symbols",
            Group::Flags => "Flags",
        }
    }

    /// The category that is shown under the name `label`, if there is one.
    pub fn from_label(label: &str) -> (group: Option<Group>)
        ensures
            group == Group::labelled(label@),
    {
        let wanted: String = label.to_owned();
        let mut rank: usize = 0;
        while rank < GROUP_COUNT
            invariant
                rank <= GROUP_COUNT,
                wanted@ == label@,
                Group::labelled(label@) == Group::labelled_from(label@, rank as nat),
            decreases GROUP_COUNT - rank,
        {
            match Group::from_index(rank) {
                Some(group) => {
                    if group.label().to_owned() == wanted {
                        return Some(group);
                    }
                },
                None => {},
            }
            rank += 1;
        }
        None
    }

    /// Position of the category in canonical order.
    pub fn index(self) -> (i: usize)
        ensures
            i == self.rank(),
            i < GROUP_COUNT,
            Group::at(i as nat) == self,
    {
        match self {
            Group::SmileysAndEmotion => 0,
            Group::PeopleAndBody => 1,
            Group::Component => 2,
            Group::AnimalsAndNature => 3,
            Group::FoodAndDrink => 4,
            Group::TravelAndPlaces => 5,
            Group::Activities => 6,
            Group::Objects => 7,
            Group::Symbols => 8,
            Group::Flags => 9,
        }
    }

    /// The category at position `i` of the canonical order, if there is one.
    pub fn from_index(i: usize) -> (g: Option<Group>)
        ensures
            i < GROUP_COUNT ==> g == Some(Group::at(i as nat)),
            i < GROUP_COUNT ==> Group::at(i as nat).rank() == i,
            i >= GROUP_COUNT ==> g.is_none(),
    {
        if i == 0 {
            Some(Group::SmileysAndEmotion)
        } else if i == 1 {
            Some(Group::PeopleAndBody)
        } else if i == 2 {
            Some(Group::Component)
        } else if i == 3 {
            Some(Group::AnimalsAndNature)
        } else if i == 4 {
            Some(Group::FoodAndDrink)
        } else if i == 5 {
            Some(Group::TravelAndPlaces)
        } else if i == 6 {
            Some(Group::Activities)
        } else if i == 7 {
            Some(Group::Objects)
        } else if i == 8 {
            Some(Group::Symbols)
        } else if i == 9 {
            Some(Group::Flags)
        } else {
            None
        }
    }
}

/// One skin-tone rendering of an entry.
#[derive(Debug)]
pub struct Tone {
    pub glyph: String,
    pub name: String,
}

/// One emoji of the catalog.
#[derive(Debug)]
pub struct Entry {
    pub glyph: String,
    pub name: String,
    pub group: Group,
    pub tones: Vec<Tone>,
}

/// No two categories are shown under the same name: the name of a category
/// leads back to the category.
pub proof fn lemma_label_names_its_group(group: Group)
    ensures
        Group::labelled(group.label_text()) == Some(group),
{
    reveal_strlit("Smileys & Emotion");
    reveal_strlit("People & Body");
    reveal_strlit("Component");
    reveal_strlit("Animals & Nature");
    reveal_strlit("Food & Drink");
    reveal_strlit("Travel & Places");
    reveal_strlit("Activities");
    reveal_strlit("Objects");
    reveal_strlit("Symbols");
    reveal_strlit("Flags");
    assert("Smileys & Emotion"@.len() == 17);
    assert("People & Body"@.len() == 13);
    assert("Component"@.len() == 9);
    assert("Animals & Nature"@.len() == 16);
    assert("Food & Drink"@.len() == 12);
    assert("Travel & Places"@.len() == 15);
    assert("Activities"@.len() == 10);
    assert("Objects"@.len() == 7);
    assert("Symbols"@.len() == 7);
    assert("Flags"@.len() == 5);
    assert("Objects"@[0] != "Symbols"@[0]);
    let label = group.label_text();
    assert(Group::labelled_from(label, 10) == None::<Group>);
    assert(Group::labelled_from(label, 9) == if group == Group::Flags {
        Some(group)
    } else {
        None
    });
    assert(Group::labelled_from(label, 8) == if group.rank() >= 8 {
        Some(group)
    } else {
        None
    });
    assert(Group::labelled_from(label, 7) == if group.rank() >= 7 {
        Some(group)
    } else {
        None
    });
    assert(Group::labelled_from(label, 6) == if group.rank() >= 6 {
        Some(group)
    } else {
        None
    });
    assert(Group::labelled_from(label, 5) == if group.rank() >= 5 {
        Some(group)
    } else {
        None
    });
    assert(Group::labelled_from(label, 4) == if group.rank() >= 4 {
        Some(group)
    } else {
        None
    });
    assert(Group::labelled_from(label, 3) == if group.rank() >= 3 {
        Some(group)
    } else {
        None
    });
    assert(Group::labelled_from(label, 2) == if group.rank() >= 2 {
        Some(group)
    } else {
        None
    });
    assert(Group::labelled_from(label, 1) == if group.rank() >= 1 {
        Some(group)
    } else {
        None
    });
}

/// A tone as texts.
pub struct ToneView {
    pub glyph: Seq<char>,
    pub name: Seq<char>,
}

/// An entry as texts.
pub struct EntryView {
    pub glyph: Seq<char>,
    pub name: Seq<char>,
    pub group: Group,
    pub tones: Seq<ToneView>,
}

impl View for Tone {
    type V = ToneView;

    open spec fn view(&self) -> ToneView {
        ToneView { glyph: self.glyph@, name: self.name@ }
    }
}

impl View for Entry {
    type V = EntryView;

    open spec fn view(&self) -> EntryView {
        EntryView {
            glyph: self.glyph@,
            name: self.name@,
            group: self.group,
            tones: self.tones@.map_values(|tone: Tone| tone@),
        }
    }
}

/// What the source of the catalog tells about one emoji: its glyph, its
/// name, the name of its category, and whether it is a less qualified variant
/// of another emoji.
#[derive(Debug)]
pub struct Record {
    pub glyph: String,
    pub name: String,
    pub group: String,
    pub variant: bool,
}

/// Number of skin tones that an emoji can have.
pub const SKIN_TONES: usize = 5;

/// The name of skin tone `tone`, from the lightest to the darkest.
pub open spec fn skin_tone_text(tone: nat) -> Seq<char> {
    if tone == 0 {
        "light"@
    } else if tone == 1 {
        "medium-light"@
    } else if tone == 2 {
        "medium"@
    } else if tone == 3 {
        "medium-dark"@
    } else {
        "dark"@
    }
}

/// The name of the emoji called `base` in skin tone `tone`.
pub open spec fn toned_name_text(base: Seq<char>, tone: nat) -> Seq<char> {
    base + ": "@ + skin_tone_text(tone) + " skin tone"@
}

/// The position of the first record called `name` that is no variant.
pub open spec fn first_record(records: Seq<Record>, name: Seq<char>) -> Option<int>
    decreases records.len(),
{
    if records.len() == 0 {
        None
    } else {
        match first_record(records.drop_last(), name) {
            Some(position) => Some(position),
            None => if !records.last().variant && records.last().name@ == name {
                Some(records.len() - 1)
            } else {
                None
            },
        }
    }
}

/// The first `tones` skin tones of the emoji called `base`, lightest first:
/// for each tone the record with the toned name, where there is one.
pub open spec fn tones_upto(records: Seq<Record>, base: Seq<char>, tones: nat) -> Seq<ToneView>
    decreases tones,
{
    if tones == 0 {
        Seq::empty()
    } else {
        let before = tones_upto(records, base, (tones - 1) as nat);
        let name = toned_name_text(base, (tones - 1) as nat);
        match first_record(records, name) {
            Some(position) => before.push(ToneView { glyph: records[position].glyph@, name }),
            None => before,
        }
    }
}

/// The entry that a record gives: none for a variant or a record of an
/// unknown category; otherwise the record's glyph and name, its category, and
/// the skin tones that the records hold for its name.
pub open spec fn entry_of(records: Seq<Record>, record: Record) -> Option<EntryView> {
    if record.variant {
        None
    } else {
        match Group::labelled(record.group@) {
            Some(group) => Some(
                EntryView {
                    glyph: record.glyph@,
                    name: record.name@,
                    group,
                    tones: tones_upto(records, record.name@, SKIN_TONES as nat),
                },
            ),
            None => None,
        }
    }
}

/// Whether one of the entries has the name `name`.
pub open spec fn holds_name(entries: Seq<EntryView>, name: Seq<char>) -> bool {
    exists|i: int| 0 <= i < entries.len() && (#[trigger] entries[i]).name == name
}

/// The catalog that the first `count` records give: their entries, in the
/// order of the records. Of the records that give an entry of one name, only
/// the first counts.
pub open spec fn built(records: Seq<Record>, count: nat) -> Seq<EntryView>
    decreases count,
{
    if count == 0 {
        Seq::empty()
    } else {
        let before = built(records, (count - 1) as nat);
        match entry_of(records, records[count - 1]) {
            Some(entry) => if holds_name(before, entry.name) {
                before
            } else {
                before.push(entry)
            },
            None => before,
        }
    }
}

/// A catalog as texts.
pub open spec fn catalog_view(catalog: Seq<Entry>) -> Seq<EntryView> {
    catalog.map_values(|entry: Entry| entry@)
}

/// What `first_record` finds: the least position of a record with the name
/// that is no variant, or nothing where there is no such record.
pub proof fn lemma_first_record(records: Seq<Record>, name: Seq<char>)
    ensures
        match first_record(records, name) {
            Some(position) => {
                &&& 0 <= position < records.len()
                &&& !records[position].variant
                &&& records[position].name@ == name
                &&& forall|i: int|
                    0 <= i < position ==> (#[trigger] records[i]).variant || records[i].name@
                        != name
            },
            None => forall|i: int|
                0 <= i < records.len() ==> (#[trigger] records[i]).variant || records[i].name@
                    != name,
        },
    decreases records.len(),
{
    if records.len() > 0 {
        lemma_first_record(records.drop_last(), name);
        match first_record(records.drop_last(), name) {
            Some(position) => {
                assert(records.drop_last()[position] == records[position]);
                assert forall|i: int| 0 <= i < position implies (#[trigger] records[i]).variant
                    || records[i].name@ != name by {
                    assert(records.drop_last()[i] == records[i]);
                }
            },
            None => {
                assert forall|i: int| 0 <= i < records.len() - 1 implies (#[trigger] records[i]).variant
                    || records[i].name@ != name by {
                    assert(records.drop_last()[i] == records[i]);
                }
            },
        }
    }
}

/// The name of skin tone `tone`, from the lightest to the darkest.
pub fn skin_tone_name(tone: usize) -> (name: &'static str)
    ensures
        name@ == skin_tone_text(tone as nat),
{
    if tone == 0 {
        "light"
    } else if tone == 1 {
        "medium-light"
    } else if tone == 2 {
        "medium"
    } else if tone == 3 {
        "medium-dark"
    } else {
        "dark"
    }
}

/// The name of the emoji called `base` in skin tone `tone`.
pub fn toned_name(base: &str, tone: usize) -> (name: String)
    ensures
        name@ == toned_name_text(base@, tone as nat),
{
    String::from_str(base).concat(": ").concat(skin_tone_name(tone)).concat(" skin tone")
}

/// The position of the first record called `name` that is no variant.
pub fn find_record(records: &Vec<Record>, name: &String) -> (found: Option<usize>)
    ensures
        found.is_some() == first_record(records@, name@).is_some(),
        found matches Some(position) ==> first_record(records@, name@) == Some(position as int)
            && position < records@.len(),
{
    let mut i: usize = 0;
    while i < records.len()
        invariant
            i <= records.len(),
            forall|j: int|
                0 <= j < i ==> (#[trigger] records@[j]).variant || records@[j].name@ != name@,
        decreases records.len() - i,
    {
        if !records[i].variant && records[i].name == *name {
            proof {
                lemma_first_record(records@, name@);
                assert(!records@[i as int].variant && records@[i as int].name@ == name@);
                if let Some(position) = first_record(records@, name@) {
                    assert(!records@[position].variant && records@[position].name@ == name@);
                }
            }
            return Some(i);
        }
        i += 1;
    }
    proof {
        lemma_first_record(records@, name@);
        if let Some(position) = first_record(records@, name@) {
            assert(!records@[position].variant && records@[position].name@ == name@);
        }
    }
    None
}

/// The skin tones of the emoji called `base`, lightest first.
pub fn collect_tones(records: &Vec<Record>, base: &str) -> (tones: Vec<Tone>)
    ensures
        tones@.map_values(|tone: Tone| tone@) == tones_upto(records@, base@, SKIN_TONES as nat),
        tones@.len() <= SKIN_TONES,
{
    let mut tones: Vec<Tone> = Vec::new();
    let mut tone: usize = 0;
    while tone < SKIN_TONES
        invariant
            tone <= SKIN_TONES,
            tones@.len() <= tone,
            tones@.map_values(|tone: Tone| tone@) =~= tones_upto(records@, base@, tone as nat),
        decreases SKIN_TONES - tone,
    {
        let name: String = toned_name(base, tone);
        match find_record(records, &name) {
            Some(position) => {
                let ghost before = tones@;
                let found = Tone { glyph: records[position].glyph.clone(), name };
                tones.push(found);
                assert(tones@.map_values(|tone: Tone| tone@) =~= before.map_values(
                    |tone: Tone| tone@,
                ).push(found@));
            },
            None => {},
        }
        tone += 1;
    }
    tones
}

/// No two entries of a built catalog have one name.
pub proof fn lemma_built_names_differ(records: Seq<Record>, count: nat)
    ensures
        forall|i: int, j: int|
            0 <= i < j < built(records, count).len() ==> (#[trigger] built(records, count)[i]).name
                != (#[trigger] built(records, count)[j]).name,
    decreases count,
{
    if count > 0 {
        lemma_built_names_differ(records, (count - 1) as nat);
    }
}

/// Whether an entry of the catalog has the name `name`.
pub fn catalog_has_name(catalog: &Vec<Entry>, name: &String) -> (found: bool)
    ensures
        found == holds_name(catalog_view(catalog@), name@),
{
    let mut i: usize = 0;
    while i < catalog.len()
        invariant
            i <= catalog.len(),
            forall|j: int| 0 <= j < i ==> (#[trigger] catalog_view(catalog@)[j]).name != name@,
        decreases catalog.len() - i,
    {
        if catalog[i].name == *name {
            assert(catalog_view(catalog@)[i as int].name == name@);
            return true;
        }
        i += 1;
    }
    false
}

/// Builds the catalog from the records of its source. A record gives an
/// entry unless it is a variant, its category is unknown, or an earlier
/// record gave an entry of the same name; the entries keep the order of the
/// records. The skin tones of an entry are the records called by the entry's
/// name, a colon and the name of the tone.
pub fn build_catalog(records: &Vec<Record>) -> (catalog: Vec<Entry>)
    ensures
        catalog_view(catalog@) == built(records@, records@.len()),
        catalog@.len() <= records@.len(),
{
    let mut catalog: Vec<Entry> = Vec::new();
    let mut i: usize = 0;
    while i < records.len()
        invariant
            i <= records.len(),
            catalog@.len() <= i,
            catalog_view(catalog@) =~= built(records@, i as nat),
        decreases records.len() - i,
    {
        let record: &Record = &records[i];
        if !record.variant {
            match Group::from_label(record.group.as_str()) {
                Some(group) => {
                    if !catalog_has_name(&catalog, &record.name) {
                        let ghost before = catalog@;
                        let tones: Vec<Tone> = collect_tones(records, record.name.as_str());
                        let entry = Entry {
                            glyph: record.glyph.clone(),
                            name: record.name.clone(),
                            group,
                            tones,
                        };
                        assert(entry@ == entry_of(records@, *record)->0);
                        catalog.push(entry);
                        assert(catalog_view(catalog@) =~= catalog_view(before).push(entry@));
                    }
                },
                None => {},
            }
        }
        i += 1;
    }
    catalog
}

/// Whether a record gives an entry: it is no variant and its category is
/// known.
pub open spec fn gives_entry(record: Record) -> bool {
    !record.variant && Group::labelled(record.group@).is_some()
}

/// A record that gives an entry puts an entry into the catalog.
pub proof fn lemma_built_holds(records: Seq<Record>, position: int, count: nat)
    requires
        0 <= position < count <= records.len(),
        gives_entry(records[position]),
    ensures
        built(records, count).len() > 0,
    decreases count,
{
    if position + 1 < count {
        lemma_built_holds(records, position, (count - 1) as nat);
    }
}

/// Reads every emoji that `emoji::lookup_by_glyph::iter_emoji` hands out, in
/// the order in which it hands them out, and copies from each its glyph, its
/// name, the name of its group and its variant flag. The one claim made of
/// the records is that some record is no variant and names a known category:
/// the crate's glyph map holds the waving hand of "People & Body".
#[verifier::external_body]
fn emoji_records() -> (records: Vec<Record>)
    ensures
        exists|i: int| 0 <= i < records@.len() && gives_entry(#[trigger] records@[i]),
{
    emoji::lookup_by_glyph::iter_emoji().map(
        |found| Record {
            glyph: found.glyph.to_string(),
            name: found.name.to_string(),
            group: found.group.to_string(),
            variant: found.is_variant,
        },
    ).collect()
}

/// The catalog of the `emoji` crate: the catalog built from the records that
/// the crate hands out. It is not empty.
pub fn load_catalog() -> (catalog: Vec<Entry>)
    ensures
        exists|records: Seq<Record>|
            catalog_view(catalog@) == #[trigger] built(records, records.len()),
        catalog@.len() > 0,
{
    let records: Vec<Record> = emoji_records();
    let catalog: Vec<Entry> = build_catalog(&records);
    proof {
        let position = choose|i: int| 0 <= i < records@.len() && gives_entry(#[trigger] records@[i]);
        lemma_built_holds(records@, position, records@.len());
        assert(catalog_view(catalog@).len() == catalog@.len());
    }
    catalog
}

/// The entries of a catalog, by reference.
pub open spec fn refs_of<'a>(catalog: Seq<Entry>) -> Seq<&'a Entry> {
    catalog.map_values(|entry: Entry| &entry)
}

/// References to all entries of a catalog, in catalog order.
pub fn all_refs<'a>(catalog: &'a Vec<Entry>) -> (refs: Vec<&'a Entry>)
    ensures
        refs@ == refs_of::<'a>(catalog@),
{
    let mut refs: Vec<&'a Entry> = Vec::new();
    let mut i: usize = 0;
    while i < catalog.len()
        invariant
            i <= catalog.len(),
            refs@ =~= refs_of::<'a>(catalog@.take(i as int)),
        decreases catalog.len() - i,
    {
        refs.push(&catalog[i]);
        i += 1;
    }
    assert(catalog@.take(i as int) =~= catalog@);
    refs
}

} // verus!
