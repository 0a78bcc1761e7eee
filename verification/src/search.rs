//! Searching the catalog: the whole catalog for an empty query, the best
//! matches of a fuzzy matcher for any other.

use vstd::prelude::*;

use crate::catalog::{all_refs, refs_of, Entry};

verus! {

/// Most results that a search with a query hands out.
pub const MAX_RESULTS: usize = 1000;

/// The character that marks a name as reserved.
pub const RESERVED_MARK: char = ':';

/// Whether a name is reserved: it holds the reserved mark. Entries with such
/// a name are left out of the list for the empty query.
pub open spec fn is_reserved(name: Seq<char>) -> bool {
    name.contains(RESERVED_MARK)
}

/// The entries whose name is not reserved, in their order.
pub open spec fn visible<'a>(entries: Seq<&'a Entry>) -> Seq<&'a Entry> {
    entries.filter(|entry: &'a Entry| !is_reserved(entry.name@))
}

/// The texts of a sequence of strings.
pub open spec fn texts(strings: Seq<String>) -> Seq<Seq<char>> {
    strings.map_values(|string: String| string@)
}

/// The position of the first entry of the catalog called `name`.
pub open spec fn first_named(catalog: Seq<Entry>, name: Seq<char>) -> Option<int>
    decreases catalog.len(),
{
    if catalog.len() == 0 {
        None
    } else {
        match first_named(catalog.drop_last(), name) {
            Some(position) => Some(position),
            None => if catalog.last().name@ == name {
                Some(catalog.len() - 1)
            } else {
                None
            },
        }
    }
}

/// The places in the catalog that a list of names stands for: for each name
/// in turn the place of the first entry with that name. A name that no entry
/// has stands for nothing, and so does a name whose entry an earlier name has
/// taken already.
pub open spec fn resolved_positions(catalog: Seq<Entry>, names: Seq<Seq<char>>) -> Seq<int>
    decreases names.len(),
{
    if names.len() == 0 {
        Seq::empty()
    } else {
        let before = resolved_positions(catalog, names.drop_last());
        match first_named(catalog, names.last()) {
            Some(position) => if before.contains(position) {
                before
            } else {
                before.push(position)
            },
            None => before,
        }
    }
}

/// The entries at a list of places in the catalog.
pub open spec fn entries_at<'a>(catalog: Seq<Entry>, positions: Seq<int>) -> Seq<&'a Entry> {
    positions.map_values(|position: int| &catalog[position])
}

/// The entries that a list of names stands for, in the order of the names,
/// none of them twice.
pub open spec fn resolved<'a>(catalog: Seq<Entry>, names: Seq<Seq<char>>) -> Seq<&'a Entry> {
    entries_at(catalog, resolved_positions(catalog, names))
}

/// Whether a list holds entries of the catalog only, and no two of one name.
pub open spec fn distinct_in<'a>(catalog: Seq<Entry>, entries: Seq<&'a Entry>) -> bool {
    &&& forall|i: int| 0 <= i < entries.len() ==> refs_of::<'a>(catalog).contains(#[trigger] entries[i])
    &&& forall|i: int, j: int|
        0 <= i < j < entries.len() ==> (#[trigger] entries[i]).name@ != (#[trigger] entries[j]).name@
}

/// The first `limit` names of a list, or all of them where there are fewer.
pub open spec fn capped(names: Seq<Seq<char>>, limit: nat) -> Seq<Seq<char>> {
    if names.len() <= limit {
        names
    } else {
        names.take(limit as int)
    }
}

/// What a search returns. For the empty query: every entry of the catalog
/// whose name is not reserved, in catalog order. For any other query: the
/// entries that the first [`MAX_RESULTS`] names of the matcher's ranking stand
/// for, in the order of the ranking; nothing where there is no ranking.
pub open spec fn search_result<'a>(
    catalog: Seq<Entry>,
    query: Seq<char>,
    ranking: Option<Seq<Seq<char>>>,
) -> Seq<&'a Entry> {
    if query.len() == 0 {
        visible(refs_of(catalog))
    } else {
        match ranking {
            Some(names) => resolved(catalog, capped(names, MAX_RESULTS as nat)),
            None => Seq::empty(),
        }
    }
}

/// What `first_named` finds: the least position with the name, or nothing
/// where no entry has the name.
pub proof fn lemma_first_named(catalog: Seq<Entry>, name: Seq<char>)
    ensures
        match first_named(catalog, name) {
            Some(position) => {
                &&& 0 <= position < catalog.len()
                &&& catalog[position].name@ == name
                &&& forall|i: int| 0 <= i < position ==> (#[trigger] catalog[i]).name@ != name
            },
            None => forall|i: int| 0 <= i < catalog.len() ==> (#[trigger] catalog[i]).name@ != name,
        },
    decreases catalog.len(),
{
    if catalog.len() > 0 {
        lemma_first_named(catalog.drop_last(), name);
        assert forall|i: int| 0 <= i < catalog.len() - 1 implies catalog.drop_last()[i]
            == catalog[i] by {}
        match first_named(catalog.drop_last(), name) {
            Some(position) => {
                assert(catalog.drop_last()[position] == catalog[position]);
                assert forall|i: int| 0 <= i < position implies (#[trigger] catalog[i]).name@
                    != name by {
                    assert(catalog.drop_last()[i] == catalog[i]);
                }
            },
            None => {
                assert forall|i: int| 0 <= i < catalog.len() - 1 implies (#[trigger] catalog[i]).name@
                    != name by {
                    assert(catalog.drop_last()[i] == catalog[i]);
                }
            },
        }
    }
}

/// The places that names stand for lie in the catalog, each is the first
/// place of its entry's name, each name is one of the list, no place comes
/// twice, and there are no more places than names.
pub proof fn lemma_resolved_positions(catalog: Seq<Entry>, names: Seq<Seq<char>>)
    ensures
        resolved_positions(catalog, names).len() <= names.len(),
        forall|i: int|
            0 <= i < resolved_positions(catalog, names).len() ==> {
                let position = #[trigger] resolved_positions(catalog, names)[i];
                &&& 0 <= position < catalog.len()
                &&& first_named(catalog, catalog[position].name@) == Some(position)
                &&& names.contains(catalog[position].name@)
            },
        forall|i: int, j: int|
            0 <= i < j < resolved_positions(catalog, names).len() ==> (#[trigger] resolved_positions(
                catalog,
                names,
            )[i]) != (#[trigger] resolved_positions(catalog, names)[j]),
    decreases names.len(),
{
    if names.len() > 0 {
        let shorter = names.drop_last();
        lemma_resolved_positions(catalog, shorter);
        lemma_first_named(catalog, names.last());
        let before = resolved_positions(catalog, shorter);
        let now = resolved_positions(catalog, names);
        assert forall|i: int| 0 <= i < now.len() implies {
            let position = #[trigger] now[i];
            &&& 0 <= position < catalog.len()
            &&& first_named(catalog, catalog[position].name@) == Some(position)
            &&& names.contains(catalog[position].name@)
        } by {
            if i < before.len() {
                assert(now[i] == before[i]);
                let name = catalog[before[i]].name@;
                let at = choose|at: int| 0 <= at < shorter.len() && shorter[at] == name;
                assert(names[at] == name);
            } else {
                assert(names[names.len() - 1] == catalog[now[i]].name@);
            }
        }
        assert forall|i: int, j: int| 0 <= i < j < now.len() implies (#[trigger] now[i]) != (
        #[trigger] now[j]) by {
            if j < before.len() {
                assert(now[i] == before[i] && now[j] == before[j]);
            } else {
                assert(now[i] == before[i]);
                assert(before.contains(before[i]));
            }
        }
    }
}

/// The entries that names stand for are entries of the catalog, no two of
/// them have one name, and there are no more of them than names.
pub proof fn lemma_resolved_distinct<'a>(catalog: Seq<Entry>, names: Seq<Seq<char>>)
    ensures
        resolved::<'a>(catalog, names).len() <= names.len(),
        distinct_in(catalog, resolved::<'a>(catalog, names)),
{
    lemma_resolved_positions(catalog, names);
    let positions = resolved_positions(catalog, names);
    let entries = resolved::<'a>(catalog, names);
    assert forall|i: int| 0 <= i < entries.len() implies refs_of::<'a>(catalog).contains(
        #[trigger] entries[i],
    ) by {
        assert(refs_of::<'a>(catalog)[positions[i]] == entries[i]);
    }
    assert forall|i: int, j: int| 0 <= i < j < entries.len() implies (#[trigger] entries[i]).name@
        != (#[trigger] entries[j]).name@ by {
        assert(positions[i] != positions[j]);
        assert(entries[i] == &catalog[positions[i]]);
        assert(entries[j] == &catalog[positions[j]]);
    }
}

/// Whether a name is reserved.
pub fn name_is_reserved(name: &str) -> (reserved: bool)
    ensures
        reserved == is_reserved(name@),
{
    let len: usize = name.unicode_len();
    let mut i: usize = 0;
    while i < len
        invariant
            i <= len,
            len == name@.len(),
            forall|j: int| 0 <= j < i ==> name@[j] != RESERVED_MARK,
        decreases len - i,
    {
        if name.get_char(i) == RESERVED_MARK {
            assert(name@.contains(RESERVED_MARK));
            return true;
        }
        i += 1;
    }
    false
}

/// The entries whose name is not reserved, in their order.
pub fn visible_entries<'a>(entries: &Vec<&'a Entry>) -> (shown: Vec<&'a Entry>)
    ensures
        shown@ == visible(entries@),
{
    let mut shown: Vec<&'a Entry> = Vec::new();
    let mut i: usize = 0;
    proof {
        assert(entries@.take(0) =~= Seq::empty());
        entries@.take(0).lemma_filter_len(|entry: &'a Entry| !is_reserved(entry.name@));
    }
    while i < entries.len()
        invariant
            i <= entries.len(),
            shown@ == visible(entries@.take(i as int)),
        decreases entries.len() - i,
    {
        let entry: &'a Entry = entries[i];
        proof {
            assert(entries@.take(i + 1) =~= entries@.take(i as int).push(entry));
            entries@.take(i as int).lemma_filter_push(
                entry,
                |e: &'a Entry| !is_reserved(e.name@),
            );
        }
        if !name_is_reserved(entry.name.as_str()) {
            shown.push(entry);
        }
        i += 1;
    }
    proof {
        assert(entries@.take(i as int) =~= entries@);
    }
    shown
}

/// The position of the first entry of the catalog called `name`.
pub fn position_of_name(catalog: &Vec<Entry>, name: &String) -> (found: Option<usize>)
    ensures
        found.is_some() == first_named(catalog@, name@).is_some(),
        found matches Some(position) ==> first_named(catalog@, name@) == Some(position as int)
            && position < catalog@.len() && catalog@[position as int].name@ == name@,
{
    proof {
        lemma_first_named(catalog@, name@);
    }
    let mut i: usize = 0;
    while i < catalog.len()
        invariant
            i <= catalog.len(),
            forall|j: int| 0 <= j < i ==> (#[trigger] catalog@[j]).name@ != name@,
        decreases catalog.len() - i,
    {
        if catalog[i].name == *name {
            proof {
                lemma_first_named(catalog@, name@);
                assert(catalog@[i as int].name@ == name@);
                if let Some(position) = first_named(catalog@, name@) {
                    assert(catalog@[position].name@ == name@);
                }
            }
            return Some(i);
        }
        i += 1;
    }
    None
}

/// The entries that the first `limit` of a list of names stand for, none of
/// them twice.
pub fn resolve_names<'a>(catalog: &'a Vec<Entry>, names: &Vec<String>, limit: usize) -> (found: Vec<
    &'a Entry,
>)
    ensures
        found@ == resolved::<'a>(catalog@, capped(texts(names@), limit as nat)),
        found@.len() <= limit,
        distinct_in(catalog@, found@),
{
    let count: usize = if names.len() <= limit {
        names.len()
    } else {
        limit
    };
    let ghost wanted = capped(texts(names@), limit as nat);
    let mut taken: Vec<bool> = Vec::new();
    let mut place: usize = 0;
    while place < catalog.len()
        invariant
            place <= catalog.len(),
            taken@.len() == place,
            forall|p: int| 0 <= p < place ==> !taken@[p],
        decreases catalog.len() - place,
    {
        taken.push(false);
        place += 1;
    }
    let mut found: Vec<&'a Entry> = Vec::new();
    let mut i: usize = 0;
    while i < count
        invariant
            i <= count,
            count == wanted.len(),
            count <= names@.len(),
            wanted == capped(texts(names@), limit as nat),
            found@ == resolved::<'a>(catalog@, wanted.take(i as int)),
            taken@.len() == catalog@.len(),
            forall|p: int|
                0 <= p < catalog@.len() ==> taken@[p] == resolved_positions(
                    catalog@,
                    wanted.take(i as int),
                ).contains(p),
        decreases count - i,
    {
        let ghost before = resolved_positions(catalog@, wanted.take(i as int));
        proof {
            assert(wanted.take(i + 1).drop_last() =~= wanted.take(i as int));
            assert(wanted.take(i + 1).last() == names@[i as int]@);
        }
        match position_of_name(catalog, &names[i]) {
            Some(position) => {
                if !taken[position] {
                    taken.set(position, true);
                    found.push(&catalog[position]);
                    proof {
                        let now = before.push(position as int);
                        assert(resolved_positions(catalog@, wanted.take(i + 1)) == now);
                        assert(found@ =~= entries_at::<'a>(catalog@, now));
                        assert forall|p: int| 0 <= p < catalog@.len() implies taken@[p]
                            == now.contains(p) by {
                            if before.contains(p) {
                                let at = choose|at: int| 0 <= at < before.len() && before[at] == p;
                                assert(now[at] == p);
                            }
                            if p == position {
                                assert(now[now.len() - 1] == p);
                            }
                        }
                    }
                }
            },
            None => {},
        }
        i += 1;
    }
    proof {
        assert(wanted.take(i as int) =~= wanted);
        lemma_resolved_distinct(catalog@, wanted);
    }
    found
}

/// Searches the catalog, given what the matcher found for the query: its
/// ranking of names, or `None` where the matcher was not to be had.
pub fn search_from<'a>(catalog: &'a Vec<Entry>, query: &str, ranking: Option<&Vec<String>>) -> (results:
    Vec<&'a Entry>)
    ensures
        results@ == search_result::<'a>(
            catalog@,
            query@,
            match ranking {
                Some(names) => Some(texts(names@)),
                None => None,
            },
        ),
        query@.len() == 0 ==> results@ == visible(refs_of::<'a>(catalog@)),
        query@.len() > 0 && ranking.is_none() ==> results@.len() == 0,
        query@.len() > 0 ==> results@.len() <= MAX_RESULTS,
        query@.len() > 0 ==> distinct_in(catalog@, results@),
{
    if query.is_empty() {
        let entries: Vec<&'a Entry> = all_refs(catalog);
        visible_entries(&entries)
    } else {
        match ranking {
            Some(names) => resolve_names(catalog, names, MAX_RESULTS),
            None => Vec::new(),
        }
    }
}

/// Asks `emoji::search::search_annotation_all` for the emoji that match
/// `query` and hands out their names in the order in which it returned them,
/// best match first. Nothing is claimed of the names: the matcher scores
/// with a buffer that it keeps from call to call, so the ranking is its own
/// and need not be the same for one query twice.
#[verifier::external_body]
fn fuzzy_names(query: &str) -> (names: Vec<String>) {
    emoji::search::search_annotation_all(query).iter().map(|found| found.name.to_string()).collect()
}

/// Searches the catalog. The empty query gives every entry whose name is not
/// reserved, in catalog order. Any other query gives the entries that the
/// fuzzy matcher's ranking stands for, in the order of the ranking: at most
/// [`MAX_RESULTS`] of them, each an entry of the catalog, none twice.
pub fn search_emojis<'a>(catalog: &'a Vec<Entry>, query: &str) -> (results: Vec<&'a Entry>)
    ensures
        exists|ranking: Seq<Seq<char>>|
            results@ == #[trigger] search_result::<'a>(catalog@, query@, Some(ranking)),
        query@.len() == 0 ==> results@ == visible(refs_of::<'a>(catalog@)),
        query@.len() > 0 ==> results@.len() <= MAX_RESULTS,
        query@.len() > 0 ==> distinct_in(catalog@, results@),
{
    let names: Vec<String> = if query.is_empty() {
        Vec::new()
    } else {
        fuzzy_names(query)
    };
    search_from(catalog, query, Some(&names))
}

} // verus!
