//! Swords and shields, and the rule by which a found piece replaces a held one.

use vstd::prelude::*;

verus! {

/// The two categories of equipment. A hero, and a chest, holds at most one
/// piece of each.
#[derive(Clone, Copy, Debug, PartialEq, Eq, Structural)]
pub enum Category {
    Sword,
    Shield,
}

/// One piece of equipment: its category and its power level.
///
/// A piece is owned by exactly one slot at a time. It is neither `Copy` nor
/// `Clone`, so moving it out of a slot is the only way to hand it on.
#[derive(Debug, PartialEq, Eq, Structural)]
pub struct Equipment {
    pub category: Category,
    pub level: i32,
}

impl Equipment {
    /// A sword of the given level.
    pub fn sword(level: i32) -> (piece: Equipment)
        ensures
            piece == (Equipment { category: Category::Sword, level }),
    {
        Equipment { category: Category::Sword, level }
    }

    /// A shield of the given level.
    pub fn shield(level: i32) -> (piece: Equipment)
        ensures
            piece == (Equipment { category: Category::Shield, level }),
    {
        Equipment { category: Category::Shield, level }
    }

    /// The category of this piece.
    pub fn category(&self) -> (category: Category)
        ensures
            category == self.category,
    {
        self.category
    }

    /// The power level of this piece.
    pub fn level(&self) -> (level: i32)
        ensures
            level == self.level,
    {
        self.level
    }

    /// Whether this piece would replace what `held` holds: it does when the
    /// slot is empty or this piece is strictly stronger. Equal levels do not
    /// replace.
    pub open spec fn upgrades(&self, held: Option<Equipment>) -> bool {
        match held {
            Some(current) => self.level > current.level,
            None => true,
        }
    }

    /// Decides [`Equipment::upgrades`] for a held slot.
    pub fn is_upgrade_from(&self, held: &Option<Equipment>) -> (better: bool)
        ensures
            better == self.upgrades(*held),
    {
        match held {
            Some(current) => self.level > current.level,
            None => true,
        }
    }
}

/// Whether a candidate slot would replace a held slot: the candidate must be
/// present, and the held slot empty or strictly weaker.
pub open spec fn replaces(held: Option<Equipment>, candidate: Option<Equipment>) -> bool {
    match candidate {
        Some(piece) => piece.upgrades(held),
        None => false,
    }
}

/// What a held slot holds once a candidate has been offered to it.
pub open spec fn best_of(held: Option<Equipment>, candidate: Option<Equipment>) -> Option<
    Equipment,
> {
    if replaces(held, candidate) {
        candidate
    } else {
        held
    }
}

/// A candidate replaces what is held exactly when it is there and the slot is
/// empty or holds a piece of a lower level. A candidate of the same level, or
/// of a lower one, never does.
pub proof fn lemma_only_the_stronger_replaces(held: Option<Equipment>, candidate: Option<Equipment>)
    ensures
        replaces(held, candidate) <==> candidate is Some && (held is None || candidate->0.level
            > held->0.level),
        held is Some && candidate is Some && candidate->0.level <= held->0.level ==> best_of(
            held,
            candidate,
        ) == held,
        best_of(held, candidate) == held || best_of(held, candidate) == candidate,
{
}

/// Offers `other` to `current`. The candidate always leaves `other`; it lands
/// in `current` when it is an upgrade and is discarded otherwise. Returns
/// whether `current` was replaced.
pub fn maybe_upgrade(current: &mut Option<Equipment>, other: &mut Option<Equipment>) -> (upgraded:
    bool)
    ensures
        upgraded == replaces(*old(current), *old(other)),
        *final(current) == best_of(*old(current), *old(other)),
        *final(other) is None,
{
    if let Some(candidate) = other.take() {
        if candidate.is_upgrade_from(current) {
            *current = Some(candidate);
            return true;
        }
    }
    false
}

} // verus!
