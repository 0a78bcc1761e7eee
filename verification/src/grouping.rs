//! Sections: the entries of a list, split by category.

use vstd::prelude::*;

use crate::catalog::{all_refs, refs_of, Entry, Group, GROUP_COUNT};

verus! {

/// The entries of one category, in the order in which the list held them.
#[derive(Debug)]
pub struct Section<'a> {
    pub group: Group,
    pub entries: Vec<&'a Entry>,
}

/// A section as a category and its entries.
pub open spec fn section_view<'a>(section: Section<'a>) -> (Group, Seq<&'a Entry>) {
    (section.group, section.entries@)
}

/// Sections as categories and their entries.
pub open spec fn sections_view<'a>(sections: Seq<Section<'a>>) -> Seq<(Group, Seq<&'a Entry>)> {
    sections.map_values(|section: Section<'a>| section_view(section))
}

/// The entries of `entries` that belong to `group`, in their order.
pub open spec fn members<'a>(entries: Seq<&'a Entry>, group: Group) -> Seq<&'a Entry> {
    entries.filter(|entry: &'a Entry| entry.group == group)
}

/// The sections of the first `groups` categories of the canonical order: one
/// for each category that has a member, in that order.
pub open spec fn grouped_upto<'a>(entries: Seq<&'a Entry>, groups: nat) -> Seq<
    (Group, Seq<&'a Entry>),
>
    decreases groups,
{
    if groups == 0 {
        Seq::empty()
    } else {
        let before = grouped_upto(entries, (groups - 1) as nat);
        let group = Group::at((groups - 1) as nat);
        if members(entries, group).len() > 0 {
            before.push((group, members(entries, group)))
        } else {
            before
        }
    }
}

/// The sections of a list of entries.
pub open spec fn grouped<'a>(entries: Seq<&'a Entry>) -> Seq<(Group, Seq<&'a Entry>)> {
    grouped_upto(entries, GROUP_COUNT as nat)
}

/// The entries of all sections, section after section.
pub open spec fn joined<'a>(sections: Seq<(Group, Seq<&'a Entry>)>) -> Seq<&'a Entry>
    decreases sections.len(),
{
    if sections.len() == 0 {
        Seq::empty()
    } else {
        joined(sections.drop_last()) + sections.last().1
    }
}

/// The canonical order numbers the categories: `at` and `rank` undo each other.
pub proof fn lemma_rank_at(group: Group, rank: nat)
    ensures
        group.rank() < GROUP_COUNT,
        Group::at(group.rank()) == group,
        rank < GROUP_COUNT ==> Group::at(rank).rank() == rank,
{
}

/// What the sections of the first `groups` categories look like: each holds
/// the members of its category and is not empty, the categories come in
/// canonical order, and every category among them that has a member has its
/// section.
pub proof fn lemma_grouped_upto_shape<'a>(entries: Seq<&'a Entry>, groups: nat)
    requires
        groups <= GROUP_COUNT,
    ensures
        grouped_upto(entries, groups).len() <= groups,
        forall|i: int|
            0 <= i < grouped_upto(entries, groups).len() ==> {
                &&& (#[trigger] grouped_upto(entries, groups)[i]).1.len() > 0
                &&& grouped_upto(entries, groups)[i].1 == members(
                    entries,
                    grouped_upto(entries, groups)[i].0,
                )
                &&& grouped_upto(entries, groups)[i].0.rank() < groups
            },
        forall|i: int, j: int|
            0 <= i < j < grouped_upto(entries, groups).len() ==> (#[trigger] grouped_upto(
                entries,
                groups,
            )[i]).0.rank() < (#[trigger] grouped_upto(entries, groups)[j]).0.rank(),
        forall|group: Group|
            group.rank() < groups && (#[trigger] members(entries, group)).len() > 0 ==> exists|
                i: int,
            |
                0 <= i < grouped_upto(entries, groups).len() && (#[trigger] grouped_upto(
                    entries,
                    groups,
                )[i]).0 == group,
    decreases groups,
{
    if groups > 0 {
        let fewer = (groups - 1) as nat;
        let before = grouped_upto(entries, fewer);
        let now = grouped_upto(entries, groups);
        let added = Group::at(fewer);
        lemma_grouped_upto_shape(entries, fewer);
        lemma_rank_at(added, fewer);
        assert forall|group: Group|
            group.rank() < groups && (#[trigger] members(entries, group)).len() > 0 implies exists|
            i: int,
        |
            0 <= i < now.len() && (#[trigger] now[i]).0 == group by {
            lemma_rank_at(group, fewer);
            if group.rank() < fewer {
                let i = choose|i: int| 0 <= i < before.len() && (#[trigger] before[i]).0 == group;
                assert(now[i].0 == group);
            } else {
                assert(group == added);
                assert(now[now.len() - 1].0 == group);
            }
        }
    }
}

/// One more category adds its members to the joined sections.
pub proof fn lemma_joined_next<'a>(entries: Seq<&'a Entry>, groups: nat)
    ensures
        joined(grouped_upto(entries, groups + 1)) == joined(grouped_upto(entries, groups))
            + members(entries, Group::at(groups)),
{
    let before = grouped_upto(entries, groups);
    let group = Group::at(groups);
    let found = members(entries, group);
    if found.len() > 0 {
        assert(before.push((group, found)).drop_last() =~= before);
    } else {
        assert(joined(before) + found =~= joined(before));
    }
}

/// An entry added at the end of a list turns up once in the joined sections
/// of the first `groups` categories if its category is among them, and not at
/// all if it is not.
pub proof fn lemma_joined_push<'a>(entries: Seq<&'a Entry>, entry: &'a Entry, groups: nat)
    requires
        groups <= GROUP_COUNT,
    ensures
        joined(grouped_upto(entries.push(entry), groups)).to_multiset() == if entry.group.rank()
            < groups {
            joined(grouped_upto(entries, groups)).to_multiset().insert(entry)
        } else {
            joined(grouped_upto(entries, groups)).to_multiset()
        },
    decreases groups,
{
    broadcast use vstd::seq_lib::group_to_multiset_ensures;

    if groups > 0 {
        let fewer = (groups - 1) as nat;
        let group = Group::at(fewer);
        let longer = entries.push(entry);
        lemma_joined_push(entries, entry, fewer);
        lemma_joined_next(entries, fewer);
        lemma_joined_next(longer, fewer);
        lemma_rank_at(entry.group, fewer);
        entries.lemma_filter_push(entry, |e: &'a Entry| e.group == group);
        let head = joined(grouped_upto(entries, fewer));
        let longer_head = joined(grouped_upto(longer, fewer));
        let tail = members(entries, group);
        let longer_tail = members(longer, group);
        vstd::seq_lib::lemma_multiset_commutative(head, tail);
        vstd::seq_lib::lemma_multiset_commutative(longer_head, longer_tail);
        if entry.group == group {
            assert(longer_tail == tail.push(entry));
            assert((longer_head + longer_tail).to_multiset() =~= (head + tail).to_multiset().insert(
                entry,
            ));
        } else {
            assert(longer_tail == tail);
            assert((longer_head + longer_tail).to_multiset() =~= if entry.group.rank() < fewer {
                (head + tail).to_multiset().insert(entry)
            } else {
                (head + tail).to_multiset()
            });
        }
    }
}

/// Grouping loses no entry and repeats none: the sections together hold
/// exactly the entries of the list, each as often as the list holds it.
pub proof fn lemma_grouping_keeps_entries<'a>(entries: Seq<&'a Entry>)
    ensures
        joined(grouped(entries)).to_multiset() == entries.to_multiset(),
        joined(grouped(entries)).len() == entries.len(),
    decreases entries.len(),
{
    broadcast use vstd::seq_lib::group_to_multiset_ensures;

    if entries.len() == 0 {
        lemma_grouped_of_none(entries, GROUP_COUNT as nat);
        assert(joined(grouped(entries)) =~= entries);
    } else {
        let shorter = entries.drop_last();
        let entry = entries.last();
        assert(entries =~= shorter.push(entry));
        lemma_grouping_keeps_entries(shorter);
        lemma_joined_push(shorter, entry, GROUP_COUNT as nat);
        lemma_rank_at(entry.group, 0);
    }
    vstd::seq_lib::to_multiset_len(joined(grouped(entries)));
    vstd::seq_lib::to_multiset_len(entries);
}

/// A list without entries has no sections.
pub proof fn lemma_grouped_of_none<'a>(entries: Seq<&'a Entry>, groups: nat)
    requires
        entries.len() == 0,
    ensures
        grouped_upto(entries, groups).len() == 0,
    decreases groups,
{
    if groups > 0 {
        lemma_grouped_of_none(entries, (groups - 1) as nat);
        let group = Group::at((groups - 1) as nat);
        entries.lemma_filter_len(|entry: &'a Entry| entry.group == group);
    }
}

/// Grouping is complete and ordered: the sections hold exactly the entries of
/// the list, no section is empty, each holds the members of its category in
/// the order of the list, the categories come in canonical order, and a
/// category has a section whenever the list holds one of its members.
pub proof fn lemma_grouping_complete<'a>(entries: Seq<&'a Entry>)
    ensures
        joined(grouped(entries)).to_multiset() == entries.to_multiset(),
        forall|i: int|
            0 <= i < grouped(entries).len() ==> {
                &&& (#[trigger] grouped(entries)[i]).1.len() > 0
                &&& grouped(entries)[i].1 == members(entries, grouped(entries)[i].0)
            },
        forall|i: int, j: int|
            0 <= i < j < grouped(entries).len() ==> (#[trigger] grouped(entries)[i]).0.rank() < (
            #[trigger] grouped(entries)[j]).0.rank(),
        forall|group: Group| (#[trigger] members(entries, group)).len() > 0 ==> exists|i: int|
            0 <= i < grouped(entries).len() && (#[trigger] grouped(entries)[i]).0 == group,
        grouped(entries).len() <= GROUP_COUNT,
{
    lemma_grouping_keeps_entries(entries);
    lemma_grouped_upto_shape(entries, GROUP_COUNT as nat);
    assert forall|group: Group| (#[trigger] members(entries, group)).len() > 0 implies exists|
        i: int,
    |
        0 <= i < grouped(entries).len() && (#[trigger] grouped(entries)[i]).0 == group by {
        lemma_rank_at(group, 0);
    }
}

/// The entries of `entries` that belong to `group`, in their order.
pub fn entries_in_group<'a>(entries: &Vec<&'a Entry>, group: Group) -> (found: Vec<&'a Entry>)
    ensures
        found@ == members(entries@, group),
{
    let mut found: Vec<&'a Entry> = Vec::new();
    let mut i: usize = 0;
    proof {
        assert(entries@.take(0) =~= Seq::empty());
        entries@.take(0).lemma_filter_len(|entry: &'a Entry| entry.group == group);
    }
    while i < entries.len()
        invariant
            i <= entries.len(),
            found@ == members(entries@.take(i as int), group),
        decreases entries.len() - i,
    {
        let entry: &'a Entry = entries[i];
        proof {
            assert(entries@.take(i + 1) =~= entries@.take(i as int).push(entry));
            entries@.take(i as int).lemma_filter_push(entry, |e: &'a Entry| e.group == group);
        }
        if entry.group == group {
            found.push(entry);
        }
        i += 1;
    }
    proof {
        assert(entries@.take(i as int) =~= entries@);
    }
    found
}

/// Splits a list of entries into sections: one for each category that has a
/// member, in canonical order of the categories, each with its members in the
/// order of the list.
pub fn group_entries<'a>(entries: &Vec<&'a Entry>) -> (sections: Vec<Section<'a>>)
    ensures
        sections_view(sections@) == grouped(entries@),
        sections@.len() <= GROUP_COUNT,
        forall|i: int| 0 <= i < sections@.len() ==> (#[trigger] sections@[i]).entries@.len() > 0,
{
    let mut sections: Vec<Section<'a>> = Vec::new();
    let mut rank: usize = 0;
    while rank < GROUP_COUNT
        invariant
            rank <= GROUP_COUNT,
            sections_view(sections@) =~= grouped_upto(entries@, rank as nat),
        decreases GROUP_COUNT - rank,
    {
        let group: Group = match Group::from_index(rank) {
            Some(group) => group,
            None => Group::Flags,
        };
        let found: Vec<&'a Entry> = entries_in_group(entries, group);
        if found.len() > 0 {
            let ghost before = sections@;
            let section = Section { group, entries: found };
            sections.push(section);
            assert(sections_view(sections@) =~= sections_view(before).push(
                section_view(section),
            ));
        }
        rank += 1;
    }
    proof {
        lemma_grouped_upto_shape(entries@, GROUP_COUNT as nat);
        assert forall|i: int| 0 <= i < sections@.len() implies (#[trigger] sections@[i]).entries@.len()
            > 0 by {
            assert(sections_view(sections@)[i] == section_view(sections@[i]));
        }
    }
    sections
}

/// The sections of a whole catalog.
pub fn grouped_emojis<'a>(catalog: &'a Vec<Entry>) -> (sections: Vec<Section<'a>>)
    ensures
        sections_view(sections@) == grouped(refs_of::<'a>(catalog@)),
        sections@.len() <= GROUP_COUNT,
        forall|i: int| 0 <= i < sections@.len() ==> (#[trigger] sections@[i]).entries@.len() > 0,
{
    let entries: Vec<&'a Entry> = all_refs(catalog);
    group_entries(&entries)
}

} // verus!
