//! The category bar: one icon for each category.

use vstd::prelude::*;
use vstd::string::StringExecFns;

use crate::catalog::{Group, GROUP_COUNT};

verus! {

/// The category whose icon stands at place `place` of the bar.
pub open spec fn bar_group(place: nat) -> Group {
    if place == 0 {
        Group::Activities
    } else if place == 1 {
        Group::AnimalsAndNature
    } else if place == 2 {
        Group::Component
    } else if place == 3 {
        Group::Flags
    } else if place == 4 {
        Group::FoodAndDrink
    } else if place == 5 {
        Group::Objects
    } else if place == 6 {
        Group::PeopleAndBody
    } else if place == 7 {
        Group::SmileysAndEmotion
    } else if place == 8 {
        Group::Symbols
    } else {
        Group::TravelAndPlaces
    }
}

/// The name of the icon of a category.
pub open spec fn icon_stem(group: Group) -> Seq<char> {
    match group {
        Group::Activities => "activity"@,
        Group::AnimalsAndNature => "rat"@,
        Group::Component => "component"@,
        Group::Flags => "flag"@,
        Group::FoodAndDrink => "utensils-crossed"@,
        Group::Objects => "target"@,
        Group::PeopleAndBody => "person-standing"@,
        Group::SmileysAndEmotion => "smile-plus"@,
        Group::Symbols => "shell"@,
        Group::TravelAndPlaces => "ship"@,
    }
}

/// The path of the icon called `stem`.
pub open spec fn icon_path_text(stem: Seq<char>) -> Seq<char> {
    "./lucide/icons"@ + "/"@ + stem + ".svg"@
}

/// The category whose icon stands at place `place` of the bar.
pub fn group_at_place(place: usize) -> (group: Group)
    ensures
        group == bar_group(place as nat),
{
    if place == 0 {
        Group::Activities
    } else if place == 1 {
        Group::AnimalsAndNature
    } else if place == 2 {
        Group::Component
    } else if place == 3 {
        Group::Flags
    } else if place == 4 {
        Group::FoodAndDrink
    } else if place == 5 {
        Group::Objects
    } else if place == 6 {
        Group::PeopleAndBody
    } else if place == 7 {
        Group::SmileysAndEmotion
    } else if place == 8 {
        Group::Symbols
    } else {
        Group::TravelAndPlaces
    }
}

/// The name of the icon of a category.
pub fn icon_name(group: Group) -> (stem: &'static str)
    ensures
        stem@ == icon_stem(group),
{
    match group {
        Group::Activities => "activity",
        Group::AnimalsAndNature => "rat",
        Group::Component => "component",
        Group::Flags => "flag",
        Group::FoodAndDrink => "utensils-crossed",
        Group::Objects => "target",
        Group::PeopleAndBody => "person-standing",
        Group::SmileysAndEmotion => "smile-plus",
        Group::Symbols => "shell",
        Group::TravelAndPlaces => "ship",
    }
}

/// The path of the icon called `stem`.
pub fn icon_path(stem: &str) -> (path: String)
    ensures
        path@ == icon_path_text(stem@),
{
    String::from_str("./lucide/icons").concat("/").concat(stem).concat(".svg")
}

/// The paths of the icons of the category bar, one for each category, in the
/// order of the bar.
pub fn get_bar_icons() -> (icons: Vec<String>)
    ensures
        icons@.len() == GROUP_COUNT,
        forall|place: int|
            0 <= place < GROUP_COUNT ==> (#[trigger] icons@[place])@ == icon_path_text(
                icon_stem(bar_group(place as nat)),
            ),
{
    let mut icons: Vec<String> = Vec::new();
    let mut place: usize = 0;
    while place < GROUP_COUNT
        invariant
            place <= GROUP_COUNT,
            icons@.len() == place,
            forall|before: int|
                0 <= before < place ==> (#[trigger] icons@[before])@ == icon_path_text(
                    icon_stem(bar_group(before as nat)),
                ),
        decreases GROUP_COUNT - place,
    {
        icons.push(icon_path(icon_name(group_at_place(place))));
        place += 1;
    }
    icons
}

} // verus!
