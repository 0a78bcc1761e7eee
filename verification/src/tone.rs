//! The skin-tone setting and the glyph it selects for an entry.

use vstd::prelude::*;

use crate::catalog::Entry;

verus! {

/// Number of positions the tone setting cycles through.
pub const MAX_TONES: usize = 6;

/// Direction in which the tone setting is turned.
#[derive(Clone, Copy, Debug, PartialEq, Eq, Structural)]
pub enum Rotation {
    Forward,
    Backward,
}

/// The setting that follows `index` when turned once in the given direction.
pub open spec fn rotated(index: nat, rotation: Rotation) -> nat {
    match rotation {
        Rotation::Forward => (index + 1) % (MAX_TONES as nat),
        Rotation::Backward => ((index + MAX_TONES - 1) % (MAX_TONES as int)) as nat,
    }
}

/// The setting reached from `index` after `turns` turns in one direction.
pub open spec fn rotated_by(index: nat, rotation: Rotation, turns: nat) -> nat
    decreases turns,
{
    if turns == 0 {
        index
    } else {
        rotated(rotated_by(index, rotation, (turns - 1) as nat), rotation)
    }
}

/// The glyph shown for `entry` under tone setting `tone`: the variant at that
/// position where the entry declares one, the base glyph otherwise.
pub open spec fn resolved_glyph(entry: Entry, tone: nat) -> Seq<char> {
    if tone < entry.tones@.len() {
        entry.tones@[tone as int].glyph@
    } else {
        entry.glyph@
    }
}

/// A tone setting, always below [`MAX_TONES`].
#[derive(Clone, Copy, Debug)]
pub struct ToneIndex {
    value: usize,
}

impl View for ToneIndex {
    type V = nat;

    closed spec fn view(&self) -> nat {
        self.value as nat
    }
}

impl ToneIndex {
    #[verifier::type_invariant]
    spec fn in_range(self) -> bool {
        self.value < MAX_TONES
    }

    /// The setting for a raw number, wrapped into range.
    pub fn new(raw: usize) -> (t: ToneIndex)
        ensures
            t@ == raw % MAX_TONES,
    {
        ToneIndex { value: raw % MAX_TONES }
    }

    /// The setting as a number below [`MAX_TONES`].
    pub fn get(&self) -> (v: usize)
        ensures
            v == self@,
            v < MAX_TONES,
    {
        proof {
            use_type_invariant(self);
        }
        self.value
    }

    /// Turns the setting once, wrapping at either end.
    pub fn rotate(&mut self, rotation: Rotation)
        ensures
            final(self)@ == rotated(old(self)@, rotation),
    {
        proof {
            use_type_invariant(&*self);
        }
        let next: usize = match rotation {
            Rotation::Forward => (self.value + 1) % MAX_TONES,
            Rotation::Backward => (self.value + MAX_TONES - 1) % MAX_TONES,
        };
        self.value = next;
    }
}

/// The glyph to show or insert for `entry` under the setting `tone`.
pub fn resolve<'e>(entry: &'e Entry, tone: ToneIndex) -> (glyph: &'e str)
    ensures
        glyph@ == resolved_glyph(*entry, tone@),
        tone@ >= entry.tones@.len() ==> glyph@ == entry.glyph@,
{
    let t: usize = tone.get();
    if t < entry.tones.len() {
        entry.tones[t].glyph.as_str()
    } else {
        entry.glyph.as_str()
    }
}

/// After `turns` turns the setting has advanced by `turns` positions forward,
/// or by `turns` positions backward, counted round the cycle.
pub proof fn lemma_rotated_by_offset(index: nat, rotation: Rotation, turns: nat)
    requires
        index < MAX_TONES,
    ensures
        rotated_by(index, rotation, turns) < MAX_TONES,
        rotation == Rotation::Forward ==> rotated_by(index, rotation, turns) == (index + turns) % (
        MAX_TONES as nat),
        rotation == Rotation::Backward ==> rotated_by(index, rotation, turns) == (index + (MAX_TONES
            - 1) * turns) % (MAX_TONES as int),
    decreases turns,
{
    if turns > 0 {
        lemma_rotated_by_offset(index, rotation, (turns - 1) as nat);
    }
}

/// Turning the setting `MAX_TONES` times in one direction brings it back.
pub proof fn lemma_rotation_cycles(index: nat, rotation: Rotation)
    requires
        index < MAX_TONES,
    ensures
        rotated_by(index, rotation, MAX_TONES as nat) == index,
{
    lemma_rotated_by_offset(index, rotation, MAX_TONES as nat);
}

/// A turn forward undoes a turn backward, and the other way round.
pub proof fn lemma_rotation_inverse(index: nat)
    requires
        index < MAX_TONES,
    ensures
        rotated(rotated(index, Rotation::Forward), Rotation::Backward) == index,
        rotated(rotated(index, Rotation::Backward), Rotation::Forward) == index,
        rotated(index, Rotation::Forward) < MAX_TONES,
        rotated(index, Rotation::Backward) < MAX_TONES,
{
}

} // verus!
